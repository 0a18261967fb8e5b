//! Properties of the library as a whole: what its policies guarantee for
//! every input, and how its operations relate to each other.

use vstd::prelude::*;

use crate::auth::{
    comm_matches_name,
    comm_matches_trusted_spec,
    is_trusted_control_peer_spec,
    trusted_peer_names,
    uid_matches_spec,
    PeerExeCheck,
    COMM_MAX,
};
use crate::atlas::with_char;
use crate::overlay::{presentation_refresh_spec, render_dimensions_spec, tiling_margins_spec, OutputLayout, SyncPolicy};
use crate::theme::{ascii_lowercase, theme_name, theme_named, Theme};
use crate::catalog::{catalog_names, lemma_catalog_names_distinct, resolve_alias};
use crate::launcher::{
    allowed_saver_names,
    is_allowed_saver_spec,
    last_dot,
    last_named,
    path_file_name,
    sanitized,
    slash_segments,
    stem_or_raw,
    stripped_stem,
};
use crate::monitor::{sat_sub, MonitorCellBounds};
use crate::resolve::{
    candidate_names_spec,
    chosen_path,
    first_file_from,
    first_trusted_from,
    probe_of,
    search_dirs_spec,
    resolution_spec,
    search_plan_spec,
    trusted_candidate,
    PluginProbe,
};
use crate::launcher::LaunchMode;
use crate::discovery::{
    brand_dir,
    home_dirs,
    idle_brand,
    is_safe_data_root_spec,
    path_join,
    screensaver_dirs_spec,
    system_saver_dirs,
    trance_brand,
    xdg_system_dirs,
};
use crate::text::{split_on, starts_with, trim_end, trim_start, trimmed};

verus! {

/// Without a known Unix UID for the peer (or with one that differs from
/// ours), no control call is allowed, whatever else is known of the peer.
pub proof fn law_uid_is_mandatory(
    our_uid: Option<u32>,
    exe: PeerExeCheck,
    exe_recheck: PeerExeCheck,
    comm: Option<Seq<char>>,
)
    ensures
        our_uid is Some ==> !uid_matches_spec(our_uid, None),
        !is_trusted_control_peer_spec(false, false, exe, exe_recheck, comm),
{
}

/// Sharing our UID is never enough by itself: a peer whose executable and
/// `comm` cannot be read is refused.
pub proof fn law_same_uid_alone_is_insufficient(exe_recheck: PeerExeCheck)
    ensures
        !is_trusted_control_peer_spec(false, true, PeerExeCheck::Unreadable, exe_recheck, None),
{
}

/// A string that neither starts nor ends with whitespace is its own trim.
pub proof fn lemma_trimmed_unchanged(s: Seq<char>)
    requires
        s.len() > 0,
        !crate::text::is_whitespace(s[0]),
        !crate::text::is_whitespace(s.last()),
    ensures
        trimmed(s) == s,
{
    assert(trim_start(s) == s);
    assert(trim_end(s) == s);
}

/// Every trusted peer name fits the kernel's 15-character `comm` and is
/// matched by the `comm` policy as it stands.
pub proof fn law_trusted_names_fit_comm()
    ensures
        forall|k: int|
            0 <= k < trusted_peer_names().len() ==> #[trigger] trusted_peer_names()[k].len() <= COMM_MAX
                && comm_matches_trusted_spec(trusted_peer_names()[k]),
{
    assert forall|k: int| 0 <= k < trusted_peer_names().len() implies #[trigger] trusted_peer_names()[k].len()
        <= COMM_MAX && comm_matches_trusted_spec(trusted_peer_names()[k]) by {
        let name = trusted_peer_names()[k];
        lemma_trimmed_unchanged(name);
        assert(comm_matches_name(trusted_peer_names()[k], trimmed(name)));
    }
}

/// Every component is found under its own name: no catalogue name is an
/// alias, and no two components share a name.
pub proof fn law_every_component_resolves()
    ensures
        forall|k: int|
            0 <= k < catalog_names().len() ==> resolve_alias(#[trigger] catalog_names()[k])
                == catalog_names()[k],
        forall|i: int, j: int|
            0 <= i < catalog_names().len() && 0 <= j < catalog_names().len() && catalog_names()[i]
                == catalog_names()[j] ==> i == j,
{
    lemma_catalog_names_distinct();
    assert forall|k: int| 0 <= k < catalog_names().len() implies resolve_alias(
        #[trigger] catalog_names()[k],
    ) == catalog_names()[k] by {
        let n = catalog_names()[k];
        assert(n != seq!['d', 'a', 'e', 'm', 'o', 'n']) by {
            if n == seq!['d', 'a', 'e', 'm', 'o', 'n'] {
                assert(n[0] == 'd');
            }
        }
        assert(n != seq!['i', 'd', 'l', 'e']) by {
            if n == seq!['i', 'd', 'l', 'e'] {
                assert(n[0] == 'i');
            }
        }
        assert(n != seq!['p', 'l', 'u', 'g', 'i', 'n', 's']) by {
            if n == seq!['p', 'l', 'u', 'g', 'i', 'n', 's'] {
                assert(n[0] == 'p');
            }
        }
    }
}

/// Splitting a string that holds no separator gives the string itself.
pub proof fn lemma_split_without_separator(s: Seq<char>, sep: char)
    requires
        !s.contains(sep),
    ensures
        split_on(s, sep) == seq![s],
    decreases s.len(),
{
    if s.len() > 0 {
        assert(!s.drop_last().contains(sep)) by {
            if s.drop_last().contains(sep) {
                let i = choose|i: int| 0 <= i < s.drop_last().len() && s.drop_last()[i] == sep;
                assert(s[i] == sep);
            }
        }
        lemma_split_without_separator(s.drop_last(), sep);
        assert(s.last() != sep) by {
            assert(s[s.len() - 1] == s.last());
        }
        let rest = split_on(s.drop_last(), sep);
        assert(rest == seq![s.drop_last()]);
        assert(s.drop_last().push(s.last()) == s);
        assert(rest.update(rest.len() - 1, rest.last().push(s.last())) =~= seq![s]);
    } else {
        assert(s =~= Seq::<char>::empty());
    }
}

/// A string without `.` has no last dot.
pub proof fn lemma_no_dot(s: Seq<char>)
    requires
        !s.contains('.'),
    ensures
        last_dot(s) == -1,
    decreases s.len(),
{
    if s.len() > 0 {
        assert(s.last() != '.') by {
            assert(s[s.len() - 1] == s.last());
        }
        assert(!s.drop_last().contains('.')) by {
            if s.drop_last().contains('.') {
                let i = choose|i: int| 0 <= i < s.drop_last().len() && s.drop_last()[i] == '.';
                assert(s[i] == '.');
            }
        }
        lemma_no_dot(s.drop_last());
    }
}

/// A plain name (letters, digits and dashes) is its own file stem.
pub proof fn lemma_plain_name_stem(s: Seq<char>)
    requires
        s.len() > 0,
        forall|i: int| 0 <= i < s.len() ==> crate::launcher::is_saver_name_char(#[trigger] s[i]),
    ensures
        stem_or_raw(s) == s,
{
    assert(!s.contains('/')) by {
        if s.contains('/') {
            let i = choose|i: int| 0 <= i < s.len() && s[i] == '/';
            assert(crate::launcher::is_saver_name_char(s[i]));
        }
    }
    assert(!s.contains('.')) by {
        if s.contains('.') {
            let i = choose|i: int| 0 <= i < s.len() && s[i] == '.';
            assert(crate::launcher::is_saver_name_char(s[i]));
        }
    }
    lemma_split_without_separator(s, '/');
    assert(slash_segments(s) == seq![s]);
    assert(seq![s].last() == s);
    assert(s != seq!['.']) by {
        if s == seq!['.'] {
            assert(crate::launcher::is_saver_name_char(s[0]));
        }
    }
    assert(last_named(seq![s]) == Some(s));
    assert(s != seq!['.', '.']) by {
        if s == seq!['.', '.'] {
            assert(crate::launcher::is_saver_name_char(s[0]));
        }
    }
    assert(path_file_name(s) == Some(s));
    lemma_no_dot(s);
}

/// The built-in screensavers are all allowed, and each is already a clean
/// name: cleaning it gives it back unchanged.
pub proof fn law_allowlisted_names_are_clean_and_allowed()
    ensures
        forall|k: int|
            0 <= k < allowed_saver_names().len() ==> sanitized(#[trigger] allowed_saver_names()[k])
                == Some(allowed_saver_names()[k]) && is_allowed_saver_spec(allowed_saver_names()[k]),
{
    assert forall|k: int| 0 <= k < allowed_saver_names().len() implies sanitized(
        #[trigger] allowed_saver_names()[k],
    ) == Some(allowed_saver_names()[k]) && is_allowed_saver_spec(allowed_saver_names()[k]) by {
        let n = allowed_saver_names()[k];
        assert(forall|i: int| 0 <= i < n.len() ==> 'a' <= #[trigger] n[i] <= 'z');
        lemma_plain_name_stem(n);
        assert(!starts_with(n, crate::launcher::lib_saver_prefix()));
        assert(!starts_with(n, crate::launcher::lib_prefix())) by {
            if starts_with(n, crate::launcher::lib_prefix()) {
                assert(n[0] == 'l');
            }
        }
        assert(!starts_with(n, crate::launcher::screensaver_dash_prefix())) by {
            if starts_with(n, crate::launcher::screensaver_dash_prefix()) {
                assert(n[11] == '-');
            }
        }
        assert(!starts_with(n, crate::launcher::package_prefix())) by {
            if starts_with(n, crate::launcher::package_prefix()) {
                assert(n[4] == '-');
            }
        }
        assert(stripped_stem(n) == n);
        assert(!n.contains('/')) by {
            if n.contains('/') {
                let i = choose|i: int| 0 <= i < n.len() && n[i] == '/';
                assert('a' <= n[i]);
            }
        }
        assert(!n.contains('\\')) by {
            if n.contains('\\') {
                let i = choose|i: int| 0 <= i < n.len() && n[i] == '\\';
                assert('a' <= n[i]);
            }
        }
    }
}

/// The first trusted hit from directory `i` on, if any, is a candidate that
/// is a file, is trusted, and comes first among the files of its directory.
pub proof fn lemma_first_trusted_is_trusted_file(probes: Seq<Seq<PluginProbe>>, i: int, n: int)
    ensures
        first_trusted_from(probes, i, n) matches Some((d, j)) ==> {
            &&& i <= d < n
            &&& 0 <= j < 3
            &&& probe_of(probes, d, j).is_file
            &&& probe_of(probes, d, j).trusted
            &&& forall|m: int| 0 <= m < j ==> !(#[trigger] probe_of(probes, d, m)).is_file
        },
    decreases n - i,
{
    if 0 <= i < n {
        match trusted_candidate(probes, i) {
            Some(j) => {
                lemma_first_file_is_first(probes, i, 0);
            },
            None => {
                lemma_first_trusted_is_trusted_file(probes, i + 1, n);
            },
        }
    }
}

/// The first file of directory `i` from `j` on is a file, and no candidate
/// between `j` and it is.
pub proof fn lemma_first_file_is_first(probes: Seq<Seq<PluginProbe>>, i: int, j: int)
    ensures
        first_file_from(probes, i, j) matches Some(f) ==> {
            &&& j <= f < 3
            &&& probe_of(probes, i, f).is_file
            &&& forall|m: int| j <= m < f ==> !(#[trigger] probe_of(probes, i, m)).is_file
        },
    decreases 3 - j,
{
    if 0 <= j < 3 && !probe_of(probes, i, j).is_file {
        lemma_first_file_is_first(probes, i, j + 1);
    }
}

/// A resolved plugin library is always a searched candidate that the probes
/// report as a regular file under a trusted root, and the first file of its
/// directory.
pub proof fn law_resolved_plugin_is_trusted_file(
    clean: Seq<char>,
    dirs: Seq<Seq<char>>,
    probes: Seq<Seq<PluginProbe>>,
)
    ensures
        chosen_path(search_plan_spec(clean, dirs), probes) matches Some(path) ==> exists|d: int, j: int|
            #![trigger probe_of(probes, d, j)]
            0 <= d < dirs.len() && 0 <= j < 3 && path == crate::discovery::path_join(
                dirs[d],
                candidate_names_spec(clean)[j],
            ) && probe_of(probes, d, j).is_file && probe_of(probes, d, j).trusted,
{
    let plan = search_plan_spec(clean, dirs);
    lemma_first_trusted_is_trusted_file(probes, 0, plan.len() as int);
    if let Some((d, j)) = first_trusted_from(probes, 0, plan.len() as int) {
        assert(plan[d][j] == crate::discovery::path_join(dirs[d], candidate_names_spec(clean)[j]));
        assert(probe_of(probes, d, j).is_file);
    }
}

/// A saver resolves only to one of its three candidate names
/// (`libscreensaver_<c>.so`, `lib<c>.so`, `<c>`) inside a searched directory:
/// an installed plugin directory, or a development tree in preview mode only;
/// and the probes report that file as regular and under a trusted root.
pub proof fn law_resolved_plugin_lies_in_allowed_dir(
    clean: Seq<char>,
    mode: LaunchMode,
    installed: Seq<Seq<char>>,
    dev: Seq<Seq<char>>,
    probes: Seq<Seq<PluginProbe>>,
)
    ensures
        resolution_spec(clean, mode, installed, dev, probes) matches Some(path) ==> exists|
            dir: Seq<char>,
            j: int,
        |
            #![trigger candidate_names_spec(clean)[j], crate::discovery::path_join(dir, candidate_names_spec(clean)[j])]
            0 <= j < 3 && path == crate::discovery::path_join(dir, candidate_names_spec(clean)[j]) && (
            installed.contains(dir) || (mode == LaunchMode::Preview && dev.contains(dir))),
{
    let dirs = search_dirs_spec(installed, dev, mode);
    law_resolved_plugin_is_trusted_file(clean, dirs, probes);
    if let Some(path) = resolution_spec(clean, mode, installed, dev, probes) {
        let (d, j) = choose|d: int, j: int|
            #![trigger probe_of(probes, d, j)]
            0 <= d < dirs.len() && 0 <= j < 3 && path == crate::discovery::path_join(
                dirs[d],
                candidate_names_spec(clean)[j],
            ) && probe_of(probes, d, j).is_file && probe_of(probes, d, j).trusted;
        let dir = dirs[d];
        if d < installed.len() {
            assert(dir == installed[d]);
            assert(installed.contains(dir));
        } else {
            assert(mode == LaunchMode::Preview);
            let k = if d < installed.len() + dev.len() {
                d - installed.len()
            } else {
                d - installed.len() - dev.len()
            };
            assert(dir == dev[k]);
            assert(dev.contains(dir));
        }
        assert(path == crate::discovery::path_join(dir, candidate_names_spec(clean)[j]));
    }
}

/// In daemon mode only the installed plugin directories are searched, never
/// development build trees.
pub proof fn law_daemon_mode_searches_installed_dirs_only(installed: Seq<Seq<char>>, dev: Seq<Seq<char>>)
    ensures
        search_dirs_spec(installed, dev, LaunchMode::Daemon) == installed,
{
}

/// The centre of non-empty bounds lies inside them.
pub proof fn law_center_is_inside(b: MonitorCellBounds)
    requires
        b.start_col < b.end_col,
        b.start_row < b.end_row,
    ensures
        ({
            let cc = b.start_col + sat_sub(b.end_col as int, b.start_col as int) / 2;
            let cr = b.start_row + sat_sub(b.end_row as int, b.start_row as int) / 2;
            b.start_col <= cc < b.end_col && b.start_row <= cr < b.end_row
        }),
{
}


/// An absolute path: it starts with `/`.
pub open spec fn is_absolute(p: Seq<char>) -> bool {
    p.len() > 0 && p[0] == '/'
}

/// Joining onto an absolute path keeps it absolute.
pub proof fn lemma_join_keeps_absolute(base: Seq<char>, part: Seq<char>)
    requires
        is_absolute(base),
    ensures
        is_absolute(path_join(base, part)),
{
    if base.last() == '/' {
        assert((base + part)[0] == base[0]);
    } else {
        assert((base + seq!['/'] + part)[0] == base[0]);
    }
}

/// Brand directories under an absolute root are absolute.
pub proof fn lemma_brand_dir_absolute(root: Seq<char>, brand: Seq<char>)
    requires
        is_absolute(root),
    ensures
        is_absolute(brand_dir(root, brand)),
{
    lemma_join_keeps_absolute(root, brand);
    lemma_join_keeps_absolute(path_join(root, brand), crate::discovery::screensavers_dir());
}

/// The directories `XDG_DATA_DIRS` contributes are absolute.
pub proof fn lemma_xdg_dirs_absolute(parts: Seq<Seq<char>>)
    ensures
        forall|k: int| 0 <= k < xdg_system_dirs(parts).len() ==> is_absolute(#[trigger] xdg_system_dirs(parts)[k]),
    decreases parts.len(),
{
    if parts.len() > 0 {
        lemma_xdg_dirs_absolute(parts.drop_last());
        let part = parts.last();
        let earlier = xdg_system_dirs(parts.drop_last());
        if is_safe_data_root_spec(part) {
            lemma_brand_dir_absolute(part, idle_brand());
            lemma_brand_dir_absolute(part, trance_brand());
            let all = earlier.push(brand_dir(part, idle_brand())).push(brand_dir(part, trance_brand()));
            assert(xdg_system_dirs(parts) == all);
            assert forall|k: int| 0 <= k < all.len() implies is_absolute(#[trigger] all[k]) by {
                if k < earlier.len() {
                    assert(all[k] == earlier[k]);
                }
            }
        } else {
            assert(xdg_system_dirs(parts) == earlier);
        }
    }
}

/// Every plugin directory searched is an absolute path: relative values of
/// `XDG_DATA_DIRS`, `XDG_DATA_HOME` or `HOME` never enter the search; and the
/// six system directories always come first.
pub proof fn law_search_dirs_are_absolute_and_system_first(
    xdg_data_dirs: Option<Seq<char>>,
    xdg_data_home: Option<Seq<char>>,
    home: Option<Seq<char>>,
)
    ensures
        ({
            let dirs = screensaver_dirs_spec(xdg_data_dirs, xdg_data_home, home);
            &&& forall|k: int| 0 <= k < dirs.len() ==> is_absolute(#[trigger] dirs[k])
            &&& dirs.len() >= 6
            &&& dirs.take(6) == system_saver_dirs()
        }),
{
    let xdg = match xdg_data_dirs {
        Some(v) => v,
        None => crate::discovery::default_xdg_data_dirs(),
    };
    let parts = split_on(xdg, ':');
    let sys = system_saver_dirs();
    let system = sys + xdg_system_dirs(parts);
    lemma_xdg_dirs_absolute(parts);
    assert forall|k: int| 0 <= k < system.len() implies is_absolute(#[trigger] system[k]) by {
        if k < 6 {
            assert(system[k] == sys[k]);
            assert(sys[k][0] == '/');
        } else {
            assert(system[k] == xdg_system_dirs(parts)[k - 6]);
        }
    }
    assert(system.take(6) =~= sys);
    let dirs = screensaver_dirs_spec(xdg_data_dirs, xdg_data_home, home);
    match xdg_data_home {
        Some(data_home) => {
            if is_safe_data_root_spec(data_home) {
                lemma_brand_dir_absolute(data_home, idle_brand());
                lemma_brand_dir_absolute(data_home, trance_brand());
                let a = system.push(brand_dir(data_home, idle_brand()));
                assert(dirs == a.push(brand_dir(data_home, trance_brand())));
                assert forall|k: int| 0 <= k < dirs.len() implies is_absolute(#[trigger] dirs[k]) by {
                    if k < system.len() {
                        assert(dirs[k] == system[k]);
                    }
                }
                assert(dirs.take(6) =~= sys);
            }
        },
        None => {
            match home {
                Some(h) => {
                    if is_safe_data_root_spec(h) {
                        let local = path_join(h, seq!['.', 'l', 'o', 'c', 'a', 'l']);
                        lemma_join_keeps_absolute(h, seq!['.', 'l', 'o', 'c', 'a', 'l']);
                        lemma_join_keeps_absolute(local, seq!['s', 'h', 'a', 'r', 'e']);
                        lemma_join_keeps_absolute(local, seq!['l', 'i', 'b', 'e', 'x', 'e', 'c']);
                        let share = path_join(local, seq!['s', 'h', 'a', 'r', 'e']);
                        let libexec = path_join(local, seq!['l', 'i', 'b', 'e', 'x', 'e', 'c']);
                        lemma_brand_dir_absolute(share, idle_brand());
                        lemma_brand_dir_absolute(libexec, idle_brand());
                        lemma_brand_dir_absolute(share, trance_brand());
                        lemma_brand_dir_absolute(libexec, trance_brand());
                        let hd = home_dirs(h);
                        assert(dirs == system + hd);
                        assert forall|k: int| 0 <= k < dirs.len() implies is_absolute(#[trigger] dirs[k]) by {
                            if k < system.len() {
                                assert(dirs[k] == system[k]);
                            } else {
                                assert(dirs[k] == hd[k - system.len()]);
                            }
                        }
                        assert(dirs.take(6) =~= sys);
                    }
                },
                None => {},
            }
        },
    }
}


/// Offering a character to the atlas twice is the same as offering it once;
/// afterwards the character has a slot, and the slots of earlier characters
/// never move.
pub proof fn law_atlas_insert_is_idempotent(chars: Seq<char>, c: char)
    ensures
        with_char(with_char(chars, c), c) == with_char(chars, c),
        with_char(chars, c).contains(c),
        with_char(chars, c).take(chars.len() as int) == chars,
{
    if !chars.contains(c) {
        assert(chars.push(c)[chars.len() as int] == c);
        assert(chars.push(c).take(chars.len() as int) =~= chars);
    } else {
        assert(chars.take(chars.len() as int) =~= chars);
    }
}

/// An overlay never renders smaller than its configured area, and its
/// margins only ever pull it outward (never positive).
pub proof fn law_overlay_covers_configured_area(mode: Option<(u32, u32)>, w: u32, h: u32)
    ensures
        render_dimensions_spec(mode, w, h).0 >= w,
        render_dimensions_spec(mode, w, h).1 >= h,
        tiling_margins_spec(mode, w, h).0 <= 0,
        tiling_margins_spec(mode, w, h).1 <= 0,
        tiling_margins_spec(mode, w, h).2 <= 0,
        tiling_margins_spec(mode, w, h).3 <= 0,
{
}

/// Frames are never presented below 60 Hz, whatever the outputs report.
pub proof fn law_presentation_rate_at_least_60(
    layouts: Seq<OutputLayout>,
    primary: OutputLayout,
    policy: SyncPolicy,
)
    ensures
        presentation_refresh_spec(layouts, primary, policy) >= 60,
{
}

/// Parsing the name a theme displays as gives the theme back.
pub proof fn law_theme_name_round_trip(t: Theme)
    ensures
        theme_named(ascii_lowercase(theme_name(t))) == Some(t),
{
    assert(ascii_lowercase(theme_name(t)) =~= theme_name(t));
}

/// Candidate `m` of directory `d` is the first candidate there that exists.
pub open spec fn is_first_file(probes: Seq<Seq<PluginProbe>>, d: int, m: int) -> bool {
    0 <= m < 3 && probe_of(probes, d, m).is_file && forall|k: int|
        0 <= k < m ==> !(#[trigger] probe_of(probes, d, k)).is_file
}

/// The first existing candidate of a directory is the one `first_file_from` finds.
proof fn lemma_first_file_found(probes: Seq<Seq<PluginProbe>>, d: int, j: int, m: int)
    requires
        0 <= j <= m < 3,
        probe_of(probes, d, m).is_file,
        forall|k: int| j <= k < m ==> !(#[trigger] probe_of(probes, d, k)).is_file,
    ensures
        first_file_from(probes, d, j) == Some(m),
    decreases m - j,
{
    if j < m {
        lemma_first_file_found(probes, d, j + 1, m);
    }
}

/// No directory before the one `first_trusted_from` picks yields a trusted
/// candidate, and when it picks none, no directory from `i` on yields one.
proof fn lemma_first_trusted_skips_none(probes: Seq<Seq<PluginProbe>>, i: int, n: int)
    requires
        0 <= i,
    ensures
        first_trusted_from(probes, i, n) matches Some((d, j)) ==> forall|e: int|
            i <= e < d ==> (#[trigger] trusted_candidate(probes, e)) is None,
        first_trusted_from(probes, i, n) is None ==> forall|e: int|
            i <= e < n ==> (#[trigger] trusted_candidate(probes, e)) is None,
    decreases n - i,
{
    if i < n && trusted_candidate(probes, i) is None {
        lemma_first_trusted_skips_none(probes, i + 1, n);
    }
}

/// A directory whose first existing candidate is trusted yields that candidate.
proof fn lemma_trusted_first_file_yields(probes: Seq<Seq<PluginProbe>>, e: int, m: int)
    requires
        is_first_file(probes, e, m),
        probe_of(probes, e, m).trusted,
    ensures
        trusted_candidate(probes, e) == Some(m),
{
    lemma_first_file_found(probes, e, 0, m);
}

/// Resolution takes the first directory, in search order, whose first
/// existing candidate is trusted: the result is that candidate, and every
/// earlier directory has no existing candidate or an untrusted first one.
/// When nothing resolves, no searched directory has a trusted first
/// candidate. (So system directories win over the user's trees, which come
/// later in the search order.)
pub proof fn law_first_trusted_directory_wins(
    clean: Seq<char>,
    mode: LaunchMode,
    installed: Seq<Seq<char>>,
    dev: Seq<Seq<char>>,
    probes: Seq<Seq<PluginProbe>>,
)
    ensures
        ({
            let dirs = search_dirs_spec(installed, dev, mode);
            &&& resolution_spec(clean, mode, installed, dev, probes) matches Some(path) ==> exists|
                d: int,
                j: int,
            |
                #![trigger probe_of(probes, d, j)]
                0 <= d < dirs.len() && path == path_join(dirs[d], candidate_names_spec(clean)[j])
                    && is_first_file(probes, d, j) && probe_of(probes, d, j).trusted && forall|
                    e: int,
                    m: int,
                |
                    0 <= e < d && #[trigger] is_first_file(probes, e, m) ==> !probe_of(
                        probes,
                        e,
                        m,
                    ).trusted
            &&& resolution_spec(clean, mode, installed, dev, probes) is None ==> forall|e: int, m: int|
                0 <= e < dirs.len() && #[trigger] is_first_file(probes, e, m) ==> !probe_of(
                    probes,
                    e,
                    m,
                ).trusted
        }),
{
    let dirs = search_dirs_spec(installed, dev, mode);
    let plan = search_plan_spec(clean, dirs);
    let n = plan.len() as int;
    lemma_first_trusted_is_trusted_file(probes, 0, n);
    lemma_first_trusted_skips_none(probes, 0, n);
    match first_trusted_from(probes, 0, n) {
        Some((d, j)) => {
            assert(plan[d][j] == path_join(dirs[d], candidate_names_spec(clean)[j]));
            assert forall|e: int, m: int|
                0 <= e < d && #[trigger] is_first_file(probes, e, m) implies !probe_of(
                probes,
                e,
                m,
            ).trusted by {
                if probe_of(probes, e, m).trusted {
                    lemma_trusted_first_file_yields(probes, e, m);
                    assert(trusted_candidate(probes, e) is None);
                }
            }
            assert(is_first_file(probes, d, j));
        },
        None => {
            assert forall|e: int, m: int|
                0 <= e < dirs.len() && #[trigger] is_first_file(probes, e, m) implies !probe_of(
                probes,
                e,
                m,
            ).trusted by {
                if probe_of(probes, e, m).trusted {
                    lemma_trusted_first_file_yields(probes, e, m);
                    assert(trusted_candidate(probes, e) is None);
                }
            }
        },
    }
}

/// `<root>/<dir>/<brand>/screensavers`, spelled out.
pub open spec fn saver_dir_under(root: Seq<char>, dir: Seq<char>, brand: Seq<char>) -> Seq<char> {
    path_join(path_join(path_join(root, dir), brand), seq!['s', 'c', 'r', 'e', 'e', 'n', 's', 'a', 'v', 'e', 'r', 's'])
}

/// The six canonical system directories always come first.
pub proof fn law_system_dirs_come_first(
    xdg_data_dirs: Option<Seq<char>>,
    xdg_data_home: Option<Seq<char>>,
    home: Option<Seq<char>>,
)
    ensures
        screensaver_dirs_spec(xdg_data_dirs, xdg_data_home, home).len() >= 6,
        screensaver_dirs_spec(xdg_data_dirs, xdg_data_home, home).subrange(0, 6) == system_saver_dirs(),
{
    let r = screensaver_dirs_spec(xdg_data_dirs, xdg_data_home, home);
    let xdg = match xdg_data_dirs {
        Some(v) => v,
        None => crate::discovery::default_xdg_data_dirs(),
    };
    let system = system_saver_dirs() + xdg_system_dirs(split_on(xdg, ':'));
    assert(system.subrange(0, 6) =~= system_saver_dirs());
    assert(r.subrange(0, 6) =~= system.subrange(0, 6));
}

/// Without `XDG_DATA_HOME`, a safe `HOME` adds exactly four directories,
/// last and in this order: `~/.local/share/idle/screensavers`,
/// `~/.local/libexec/idle/screensavers`, `~/.local/share/trance/screensavers`,
/// `~/.local/libexec/trance/screensavers`; an unsafe `HOME` adds none.
pub proof fn law_home_dirs_come_last(xdg_data_dirs: Option<Seq<char>>, h: Seq<char>)
    ensures
        ({
            let with_home = screensaver_dirs_spec(xdg_data_dirs, None, Some(h));
            let without = screensaver_dirs_spec(xdg_data_dirs, None, None);
            let local = path_join(h, seq!['.', 'l', 'o', 'c', 'a', 'l']);
            let share = seq!['s', 'h', 'a', 'r', 'e'];
            let libexec = seq!['l', 'i', 'b', 'e', 'x', 'e', 'c'];
            let idle = seq!['i', 'd', 'l', 'e'];
            let trance = seq!['t', 'r', 'a', 'n', 'c', 'e'];
            &&& is_safe_data_root_spec(h) ==> with_home == without + seq![
                saver_dir_under(local, share, idle),
                saver_dir_under(local, libexec, idle),
                saver_dir_under(local, share, trance),
                saver_dir_under(local, libexec, trance),
            ]
            &&& !is_safe_data_root_spec(h) ==> with_home == without
        }),
{
    let h_local = path_join(h, seq!['.', 'l', 'o', 'c', 'a', 'l']);
    let sv = seq!['s', 'c', 'r', 'e', 'e', 'n', 's', 'a', 'v', 'e', 'r', 's'];
    assert(crate::discovery::screensavers_dir() == sv);
    assert(idle_brand() == seq!['i', 'd', 'l', 'e']);
    assert(trance_brand() == seq!['t', 'r', 'a', 'n', 'c', 'e']);
}

/// A safe `XDG_DATA_HOME` adds its own `idle` and `trance` screensaver
/// directories, last, whatever `HOME` is; an unsafe one adds none.
pub proof fn law_data_home_dirs_come_last(
    xdg_data_dirs: Option<Seq<char>>,
    dh: Seq<char>,
    home: Option<Seq<char>>,
)
    ensures
        ({
            let with_dh = screensaver_dirs_spec(xdg_data_dirs, Some(dh), home);
            let without = screensaver_dirs_spec(xdg_data_dirs, None, None);
            let sv = seq!['s', 'c', 'r', 'e', 'e', 'n', 's', 'a', 'v', 'e', 'r', 's'];
            &&& is_safe_data_root_spec(dh) ==> with_dh == without + seq![
                path_join(path_join(dh, seq!['i', 'd', 'l', 'e']), sv),
                path_join(path_join(dh, seq!['t', 'r', 'a', 'n', 'c', 'e']), sv),
            ]
            &&& !is_safe_data_root_spec(dh) ==> with_dh == without
        }),
{
    let sv = seq!['s', 'c', 'r', 'e', 'e', 'n', 's', 'a', 'v', 'e', 'r', 's'];
    assert(crate::discovery::screensavers_dir() == sv);
    let with_dh = screensaver_dirs_spec(xdg_data_dirs, Some(dh), home);
    let without = screensaver_dirs_spec(xdg_data_dirs, None, None);
    if is_safe_data_root_spec(dh) {
        assert(with_dh =~= without + seq![
            path_join(path_join(dh, seq!['i', 'd', 'l', 'e']), sv),
            path_join(path_join(dh, seq!['t', 'r', 'a', 'n', 'c', 'e']), sv),
        ]);
    }
}

/// The bare verbs of `trance` mean what they say, whatever follows them:
/// `status` asks for the status, `enable` enables and `disable` disables idle
/// activation, `stop` stops, `list` lists the savers.
pub proof fn law_cli_verbs_keep_their_meaning(args: Seq<Seq<char>>)
    ensures
        args.len() > 0 && args[0] == "status"@ ==> crate::cli::cli_spec(args) == crate::cli::CliMeaning::Status,
        args.len() > 0 && args[0] == "enable"@ ==> crate::cli::cli_spec(args) == crate::cli::CliMeaning::Enable,
        args.len() > 0 && args[0] == "disable"@ ==> crate::cli::cli_spec(args) == crate::cli::CliMeaning::Disable,
        args.len() > 0 && args[0] == "stop"@ ==> crate::cli::cli_spec(args) == crate::cli::CliMeaning::Stop,
        args.len() > 0 && args[0] == "list"@ ==> crate::cli::cli_spec(args) == crate::cli::CliMeaning::ListSavers,
{
    reveal_strlit("status");
    reveal_strlit("enable");
    reveal_strlit("disable");
    reveal_strlit("stop");
    reveal_strlit("list");
    reveal_strlit("-h");
    reveal_strlit("--help");
    reveal_strlit("help");
    reveal_strlit("timeout");
    reveal_strlit("saver");
    reveal_strlit("preview");
    if args.len() > 0 {
        let c = args[0];
        if c == "status"@ {
            assert(c[0] != "-h"@[0] && c[0] != "--help"@[0] && c[0] != "help"@[0]);
        }
        if c == "enable"@ {
            assert(c[0] != "-h"@[0] && c[0] != "--help"@[0] && c[0] != "help"@[0]);
            assert(c[0] != "status"@[0]);
        }
        if c == "disable"@ {
            assert(c[0] != "-h"@[0] && c[0] != "--help"@[0] && c[0] != "help"@[0]);
            assert(c[0] != "status"@[0] && c[0] != "enable"@[0]);
        }
        if c == "list"@ {
            assert(c[0] != "-h"@[0] && c[0] != "--help"@[0] && c[0] != "help"@[0]);
            assert(c[0] != "status"@[0] && c[0] != "enable"@[0] && c[0] != "disable"@[0]);
            assert(c[0] != "timeout"@[0] && c[0] != "saver"@[0]);
        }
        if c == "stop"@ {
            assert(c[0] != "-h"@[0] && c[0] != "--help"@[0] && c[0] != "help"@[0]);
            assert(c[0] != "enable"@[0] && c[0] != "disable"@[0] && c[0] != "timeout"@[0]);
            assert(c[2] != "status"@[2]);
            assert(c[1] != "saver"@[1]);
            assert(c[0] != "list"@[0] && c[0] != "preview"@[0]);
        }
    }
}

/// With a known mode `nw x nh`, the top and bottom margins pull the surface
/// out by half the vertical shortfall `nh - h` (none when the configured
/// height is not smaller), the left and right margins by half the horizontal
/// shortfall `nw - w`; without a mode all margins are zero.
pub proof fn law_margins_follow_their_axis(mode: Option<(u32, u32)>, w: u32, h: u32)
    ensures
        ({
            let m = tiling_margins_spec(mode, w, h);
            match mode {
                Some((nw, nh)) => {
                    let dy: int = if nh >= h { nh - h } else { 0 };
                    let dx: int = if nw >= w { nw - w } else { 0 };
                    &&& m.0 == -(dy / 2)
                    &&& m.2 == -(dy / 2)
                    &&& m.1 == -(dx / 2)
                    &&& m.3 == -(dx / 2)
                },
                None => m == (0int, 0int, 0int, 0int),
            }
        }),
{
}

/// `true` or `false`, as a status line writes a switch.
pub open spec fn shown_bool(b: bool) -> Seq<char> {
    if b {
        seq!['t', 'r', 'u', 'e']
    } else {
        seq!['f', 'a', 'l', 's', 'e']
    }
}

/// Each line of the text status report shows its own field, in the fixed
/// order of the report: the label, then that field's value (a saver name
/// shown as `random` when empty, the render scale as `default` when empty);
/// `with_layout` adds the display-mode line after the FPS-overlay line.
pub proof fn law_status_lines_show_their_fields(st: crate::status::DaemonStatus, with_layout: bool)
    ensures
        ({
            let lines = crate::status::status_lines_spec(st, with_layout);
            let o: int = if with_layout { 1 } else { 0 };
            &&& lines.len() == 13 + o
            &&& lines[0] == "running:              "@ + shown_bool(st.running)
            &&& lines[1] == "idle_enabled:         "@ + shown_bool(st.idle_enabled)
            &&& lines[2] == "idle_timeout_mins:    "@ + crate::text::decimal(st.idle_timeout_mins as nat)
            &&& lines[3] == "active_saver:         "@ + (if st.active_saver@.len() == 0 {
                "random"@
            } else {
                st.active_saver@
            })
            &&& lines[4] == "gpu_enabled:          "@ + shown_bool(st.gpu_enabled)
            &&& lines[5] == "show_fps_overlay:     "@ + shown_bool(st.show_fps_overlay)
            &&& with_layout ==> lines[6] == "display_mode:         "@ + st.display_mode@
            &&& lines[6 + o] == "render_scale:         "@ + (if st.render_scale@.len() == 0 {
                "default"@
            } else {
                st.render_scale@
            })
            &&& lines[7 + o] == "presentation_active:  "@ + shown_bool(st.presentation_active)
            &&& lines[8 + o] == "preview_active:       "@ + shown_bool(st.preview_active)
            &&& lines[9 + o] == "current_saver:        "@ + st.current_saver@
            &&& lines[10 + o] == "system_idle:          "@ + shown_bool(st.system_idle)
            &&& lines[11 + o] == "session_locked:       "@ + shown_bool(st.session_locked)
            &&& lines[12 + o] == "inhibited:            "@ + shown_bool(st.inhibited)
        }),
{
    reveal_strlit("true");
    reveal_strlit("false");
    assert(crate::status::bool_text(true) == shown_bool(true));
    assert(crate::status::bool_text(false) == shown_bool(false));
}

} // verus!
