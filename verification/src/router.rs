//! The `idlescreen` front door: what each command line asks for.
//!
//! Running binaries and package managers happens outside; which binary, with
//! which arguments, and which packages is decided here.

use vstd::prelude::*;

use crate::catalog::{catalog_entry, component_index, catalog_binaries, catalog_names, catalog_packages, is_catalog_entry, lookup, resolve_alias, Component};
use crate::text::{chars_equal, str_chars};

verus! {

/// What the router was asked to do.
#[derive(Debug)]
pub enum RouterCommand {
    /// Print usage (`help`, `-h`, `--help`, or no arguments).
    Usage,
    /// Print the router version (`-V`, `--version`).
    Version,
    /// List the component catalogue with install state.
    Components,
    /// Install the named components.
    Install(Vec<String>),
    /// Remove the named components.
    Remove(Vec<String>),
    /// Print installed versions of every component.
    Versions,
    /// Anything else: a component name or a verb for `idle-cli`, with its arguments.
    Route(String, Vec<String>),
}

/// Whether the characters of `s` are exactly `lit`.
fn str_is(s: &str, lit: &[char]) -> (r: bool)
    ensures
        r == (s@ == lit@),
{
    let chars = str_chars(s);
    chars_equal(&chars, lit)
}

/// The strings `v[from..]`, cloned.
fn tail_strings(v: &Vec<String>, from: usize) -> (r: Vec<String>)
    requires
        from <= v@.len(),
    ensures
        r@.len() == v@.len() - from,
        forall|k: int| 0 <= k < r@.len() ==> #[trigger] r@[k]@ == v@[from + k]@,
{
    let mut r: Vec<String> = Vec::new();
    let mut i = from;
    while i < v.len()
        invariant
            from <= i <= v@.len(),
            r@.len() == i - from,
            forall|k: int| 0 <= k < r@.len() ==> #[trigger] r@[k]@ == v@[from + k]@,
        decreases v@.len() - i,
    {
        r.push(v[i].clone());
        i = i + 1;
    }
    r
}

pub open spec fn lit_help() -> Seq<char> {
    seq!['h', 'e', 'l', 'p']
}

pub open spec fn lit_dash_h() -> Seq<char> {
    seq!['-', 'h']
}

pub open spec fn lit_dash_help() -> Seq<char> {
    seq!['-', '-', 'h', 'e', 'l', 'p']
}

pub open spec fn lit_dash_v() -> Seq<char> {
    seq!['-', 'V']
}

pub open spec fn lit_dash_version() -> Seq<char> {
    seq!['-', '-', 'v', 'e', 'r', 's', 'i', 'o', 'n']
}

pub open spec fn lit_components() -> Seq<char> {
    seq!['c', 'o', 'm', 'p', 'o', 'n', 'e', 'n', 't', 's']
}

pub open spec fn lit_install() -> Seq<char> {
    seq!['i', 'n', 's', 't', 'a', 'l', 'l']
}

pub open spec fn lit_remove() -> Seq<char> {
    seq!['r', 'e', 'm', 'o', 'v', 'e']
}

pub open spec fn lit_versions() -> Seq<char> {
    seq!['v', 'e', 'r', 's', 'i', 'o', 'n', 's']
}

/// The arguments after the first, as characters, equal `rest`.
pub open spec fn is_rest_of(rest: Seq<String>, args: Seq<String>) -> bool {
    rest.len() == args.len() - 1 && forall|k: int| 0 <= k < rest.len() ==> #[trigger] rest[k]@ == args[k + 1]@
}

/// Interpret the router's arguments (without the program name).
pub fn parse_router_args(args: &Vec<String>) -> (cmd: RouterCommand)
    ensures
        args@.len() == 0 ==> cmd is Usage,
        args@.len() > 0 ==> {
            let first = args@[0]@;
            if first == lit_help() || first == lit_dash_h() || first == lit_dash_help() {
                cmd is Usage
            } else if first == lit_dash_v() || first == lit_dash_version() {
                cmd is Version
            } else if first == lit_components() {
                cmd is Components
            } else if first == lit_install() {
                cmd matches RouterCommand::Install(rest) && is_rest_of(rest@, args@)
            } else if first == lit_remove() {
                cmd matches RouterCommand::Remove(rest) && is_rest_of(rest@, args@)
            } else if first == lit_versions() {
                cmd is Versions
            } else {
                cmd matches RouterCommand::Route(name, rest) && name@ == first && is_rest_of(
                    rest@,
                    args@,
                )
            }
        },
{
    if args.len() == 0 {
        return RouterCommand::Usage;
    }
    let first = args[0].as_str();
    let help = ['h', 'e', 'l', 'p'];
    let dash_h = ['-', 'h'];
    let dash_help = ['-', '-', 'h', 'e', 'l', 'p'];
    let dash_v = ['-', 'V'];
    let dash_version = ['-', '-', 'v', 'e', 'r', 's', 'i', 'o', 'n'];
    let components = ['c', 'o', 'm', 'p', 'o', 'n', 'e', 'n', 't', 's'];
    let install = ['i', 'n', 's', 't', 'a', 'l', 'l'];
    let remove = ['r', 'e', 'm', 'o', 'v', 'e'];
    let versions = ['v', 'e', 'r', 's', 'i', 'o', 'n', 's'];
    assert(help@ == lit_help());
    assert(dash_h@ == lit_dash_h());
    assert(dash_help@ == lit_dash_help());
    assert(dash_v@ == lit_dash_v());
    assert(dash_version@ == lit_dash_version());
    assert(components@ == lit_components());
    assert(install@ == lit_install());
    assert(remove@ == lit_remove());
    assert(versions@ == lit_versions());
    if str_is(first, help.as_slice()) || str_is(first, dash_h.as_slice()) || str_is(
        first,
        dash_help.as_slice(),
    ) {
        RouterCommand::Usage
    } else if str_is(first, dash_v.as_slice()) || str_is(first, dash_version.as_slice()) {
        RouterCommand::Version
    } else if str_is(first, components.as_slice()) {
        RouterCommand::Components
    } else if str_is(first, install.as_slice()) {
        RouterCommand::Install(tail_strings(args, 1))
    } else if str_is(first, remove.as_slice()) {
        RouterCommand::Remove(tail_strings(args, 1))
    } else if str_is(first, versions.as_slice()) {
        RouterCommand::Versions
    } else {
        RouterCommand::Route(args[0].clone(), tail_strings(args, 1))
    }
}

/// `head` followed by `rest`.
pub fn prepend(head: &str, rest: &Vec<String>) -> (r: Vec<String>)
    ensures
        r@.len() == rest@.len() + 1,
        r@[0]@ == head@,
        forall|k: int| 0 <= k < rest@.len() ==> #[trigger] r@[k + 1]@ == rest@[k]@,
{
    let mut r: Vec<String> = Vec::new();
    r.push(head.to_owned());
    let mut i: usize = 0;
    while i < rest.len()
        invariant
            i <= rest@.len(),
            r@.len() == i + 1,
            r@[0]@ == head@,
            forall|k: int| 0 <= k < i ==> #[trigger] r@[k + 1]@ == rest@[k]@,
        decreases rest@.len() - i,
    {
        r.push(rest[i].clone());
        i = i + 1;
    }
    r
}

/// Where a non-verb first argument is sent.
#[derive(Debug)]
pub enum RouteAction {
    /// Run `binary` with `args`; `package` provides it.
    Exec { binary: String, args: Vec<String>, package: String },
    /// Report the state of a managed component (one without a binary).
    Managed(Component),
}

pub open spec fn idle_cli_name() -> Seq<char> {
    seq!['i', 'd', 'l', 'e', '-', 'c', 'l', 'i']
}


/// `a` and `b` hold the same strings.
pub open spec fn same_strings(a: Seq<String>, b: Seq<String>) -> bool {
    a.len() == b.len() && forall|i: int| 0 <= i < a.len() ==> #[trigger] a[i]@ == b[i]@
}

/// `r` is where `name` with arguments `rest` is routed: a catalogued runnable
/// component runs its binary with `rest`; a managed component is reported;
/// anything else runs `idle-cli` with `name` followed by `rest`.
pub open spec fn routes_to(name: Seq<char>, rest: Seq<String>, r: RouteAction) -> bool {
    let target = resolve_alias(name);
    match r {
        RouteAction::Exec { binary, args, package } => if catalog_names().contains(target) {
            exists|k: int|
                0 <= k < catalog_names().len() && #[trigger] catalog_names()[k] == target
                    && catalog_binaries()[k] == Some(binary@) && package@ == catalog_packages()[k]
                    && same_strings(args@, rest)
        } else {
            &&& binary@ == idle_cli_name()
            &&& package@ == idle_cli_name()
            &&& args@.len() == rest.len() + 1
            &&& args@[0]@ == name
            &&& forall|i: int| 0 <= i < rest.len() ==> #[trigger] args@[i + 1]@ == rest[i]@
        },
        RouteAction::Managed(c) => exists|k: int|
            0 <= k < catalog_names().len() && #[trigger] catalog_names()[k] == target
                && is_catalog_entry(c, k) && catalog_binaries()[k] is None,
    }
}

/// Dispatch a non-verb first argument: a runnable component's binary, a managed
/// component's state, or `idle-cli` with the whole command line otherwise.
pub fn route(name: &str, rest: &Vec<String>) -> (r: RouteAction)
    ensures
        routes_to(name@, rest@, r),
{
    match lookup(name) {
        Some(c) => {
            let ghost k = choose|k: int|
                is_catalog_entry(c, k) && catalog_names()[k] == resolve_alias(name@);
            proof {
                assert(catalog_names().contains(resolve_alias(name@)));
            }
            match c.binary {
                Some(bin) => {
                    let binary = bin.to_owned();
                    let args = tail_strings(rest, 0);
                    let package = c.package.to_owned();
                    assert(same_strings(args@, rest@));
                    assert(catalog_binaries()[k] == Some(binary@));
                    RouteAction::Exec { binary, args, package }
                },
                None => RouteAction::Managed(c),
            }
        },
        None => {
            proof {
                reveal_strlit("idle-cli");
            }
            let binary = "idle-cli".to_owned();
            let package = "idle-cli".to_owned();
            assert(binary@ =~= idle_cli_name());
            assert(package@ =~= idle_cli_name());
            RouteAction::Exec { binary, args: prepend(name, rest), package }
        },
    }
}

pub open spec fn lit_all() -> Seq<char> {
    seq!['a', 'l', 'l']
}

/// Argument `arg` asks for the `k`-th component (`all` asks for every one).
pub open spec fn arg_selects(arg: Seq<char>, k: int) -> bool {
    arg == lit_all() || resolve_alias(arg) == catalog_names()[k]
}

/// Some argument asks for the `k`-th component.
pub open spec fn is_requested(args: Seq<String>, k: int) -> bool {
    exists|i: int| 0 <= i < args.len() && arg_selects(#[trigger] args[i]@, k)
}

/// Catalogue indices in ascending order of package name.
pub open spec fn package_order() -> Seq<int> {
    seq![0, 3, 5, 4, 2, 1]
}

/// The requested packages among the first `n` of [`package_order`].
pub open spec fn selected_packages(args: Seq<String>, n: int) -> Seq<Seq<char>>
    decreases n,
{
    if n <= 0 {
        Seq::empty()
    } else {
        let prev = selected_packages(args, n - 1);
        let k = package_order()[n - 1];
        if is_requested(args, k) {
            prev.push(catalog_packages()[k])
        } else {
            prev
        }
    }
}

/// The arguments among the first `n` that are neither `all` nor a component.
pub open spec fn unknown_components(args: Seq<String>, n: int) -> Seq<Seq<char>>
    decreases n,
{
    if n <= 0 {
        Seq::empty()
    } else {
        let prev = unknown_components(args, n - 1);
        let a = args[n - 1]@;
        if a != lit_all() && !catalog_names().contains(resolve_alias(a)) {
            prev.push(a)
        } else {
            prev
        }
    }
}

/// Lexicographic order on character sequences (as `String`'s `<`).
pub open spec fn lex_lt(a: Seq<char>, b: Seq<char>) -> bool
    decreases a.len(),
{
    if a.len() == 0 {
        b.len() > 0
    } else if b.len() == 0 {
        false
    } else if a[0] != b[0] {
        (a[0] as u32) < (b[0] as u32)
    } else {
        lex_lt(a.drop_first(), b.drop_first())
    }
}

/// [`package_order`] lists the catalogue packages strictly ascending, so the
/// packages it selects come out sorted and without duplicates.
pub proof fn law_package_order_is_ascending()
    ensures
        forall|i: int|
            0 <= i < package_order().len() - 1 ==> lex_lt(
                #[trigger] catalog_packages()[package_order()[i]],
                catalog_packages()[package_order()[i + 1]],
            ),
{
    reveal_with_fuel(lex_lt, 8);
    let p = catalog_packages();
    assert(lex_lt(p[0], p[3]));
    assert(lex_lt(p[3], p[5]));
    assert(lex_lt(p[5], p[4]));
    assert(lex_lt(p[4], p[2]));
    assert(lex_lt(p[2], p[1]));
}

/// `lex_lt` is transitive.
pub proof fn lemma_lex_lt_transitive(a: Seq<char>, b: Seq<char>, c: Seq<char>)
    requires
        lex_lt(a, b),
        lex_lt(b, c),
    ensures
        lex_lt(a, c),
    decreases a.len(),
{
    if a.len() > 0 && b.len() > 0 && c.len() > 0 && a[0] == b[0] && b[0] == c[0] {
        lemma_lex_lt_transitive(a.drop_first(), b.drop_first(), c.drop_first());
    }
}

/// Earlier entries of [`package_order`] name smaller packages.
proof fn lemma_package_order_pairwise(x: int, y: int)
    requires
        0 <= x < y < 6,
    ensures
        lex_lt(catalog_packages()[package_order()[x]], catalog_packages()[package_order()[y]]),
    decreases y - x,
{
    law_package_order_is_ascending();
    let p = catalog_packages();
    let o = package_order();
    assert(lex_lt(p[o[y - 1]], p[o[y]]));
    if y - x > 1 {
        lemma_package_order_pairwise(x, y - 1);
        lemma_lex_lt_transitive(p[o[x]], p[o[y - 1]], p[o[y]]);
    }
}

/// `p` is the package of a requested component among the first `n` of
/// [`package_order`].
pub open spec fn requested_among(args: Seq<String>, n: int, p: Seq<char>) -> bool {
    exists|a: int|
        0 <= a < n && is_requested(args, package_order()[a]) && p == #[trigger] catalog_packages()[package_order()[a]]
}

/// The packages selected among the first `n` of [`package_order`] are
/// strictly ascending, each is a requested one from those `n`, and every
/// requested one from those `n` is selected.
proof fn lemma_selected_packages(args: Seq<String>, n: int)
    requires
        0 <= n <= 6,
    ensures
        forall|i: int, j: int|
            0 <= i < j < selected_packages(args, n).len() ==> lex_lt(
                #[trigger] selected_packages(args, n)[i],
                #[trigger] selected_packages(args, n)[j],
            ),
        forall|i: int|
            0 <= i < selected_packages(args, n).len() ==> requested_among(
                args,
                n,
                #[trigger] selected_packages(args, n)[i],
            ),
        forall|a: int|
            0 <= a < n && is_requested(args, package_order()[a]) ==> #[trigger] selected_packages(
                args,
                n,
            ).contains(catalog_packages()[package_order()[a]]),
    decreases n,
{
    if n > 0 {
        lemma_selected_packages(args, n - 1);
        let prev = selected_packages(args, n - 1);
        let cur = selected_packages(args, n);
        let k = package_order()[n - 1];
        assert forall|i: int| 0 <= i < prev.len() implies requested_among(args, n, #[trigger] prev[i]) by {
            assert(requested_among(args, n - 1, prev[i]));
            let a = choose|a: int|
                0 <= a < n - 1 && is_requested(args, package_order()[a]) && prev[i]
                    == #[trigger] catalog_packages()[package_order()[a]];
            assert(0 <= a < n && is_requested(args, package_order()[a]) && prev[i]
                == catalog_packages()[package_order()[a]]);
        }
        if is_requested(args, k) {
            let x = catalog_packages()[k];
            assert(cur == prev.push(x));
            assert forall|i: int, j: int| 0 <= i < j < cur.len() implies lex_lt(
                #[trigger] cur[i],
                #[trigger] cur[j],
            ) by {
                if j == cur.len() - 1 {
                    assert(cur[i] == prev[i]);
                    assert(requested_among(args, n - 1, prev[i]));
                    let a = choose|a: int|
                        0 <= a < n - 1 && is_requested(args, package_order()[a]) && prev[i]
                            == #[trigger] catalog_packages()[package_order()[a]];
                    lemma_package_order_pairwise(a, n - 1);
                } else {
                    assert(cur[i] == prev[i] && cur[j] == prev[j]);
                }
            }
            assert forall|i: int| 0 <= i < cur.len() implies requested_among(args, n, #[trigger] cur[i]) by {
                if i == cur.len() - 1 {
                    assert(cur[i] == catalog_packages()[package_order()[n - 1]]);
                } else {
                    assert(cur[i] == prev[i]);
                }
            }
            assert forall|a: int| 0 <= a < n && is_requested(args, package_order()[a]) implies #[trigger] cur.contains(
                catalog_packages()[package_order()[a]],
            ) by {
                if a == n - 1 {
                    assert(cur[cur.len() - 1] == x);
                } else {
                    assert(prev.contains(catalog_packages()[package_order()[a]]));
                    let i = choose|i: int| 0 <= i < prev.len() && prev[i] == catalog_packages()[package_order()[a]];
                    assert(cur[i] == prev[i]);
                }
            }
        } else {
            assert(cur == prev);
        }
    }
}

/// The packages `install` or `remove` act on are strictly ascending (so
/// sorted and without duplicates), and they are exactly the packages of the
/// components the arguments name or alias, all of them when one argument is
/// `all`.
pub proof fn law_packages_sorted_and_exact(args: Seq<String>)
    ensures
        forall|i: int, j: int|
            0 <= i < j < selected_packages(args, 6).len() ==> lex_lt(
                #[trigger] selected_packages(args, 6)[i],
                #[trigger] selected_packages(args, 6)[j],
            ),
        forall|p: Seq<char>|
            #[trigger] selected_packages(args, 6).contains(p) <==> exists|k: int|
                0 <= k < 6 && is_requested(args, k) && p == catalog_packages()[k],
{
    lemma_selected_packages(args, 6);
    let sel = selected_packages(args, 6);
    let o = package_order();
    assert forall|p: Seq<char>| #[trigger] sel.contains(p) <==> exists|k: int|
        0 <= k < 6 && is_requested(args, k) && p == catalog_packages()[k] by {
        if sel.contains(p) {
            let i = choose|i: int| 0 <= i < sel.len() && sel[i] == p;
            assert(requested_among(args, 6, sel[i]));
            let a = choose|a: int|
                0 <= a < 6 && is_requested(args, o[a]) && sel[i] == #[trigger] catalog_packages()[o[a]];
            assert(0 <= o[a] < 6);
        }
        if exists|k: int| 0 <= k < 6 && is_requested(args, k) && p == catalog_packages()[k] {
            let k = choose|k: int| 0 <= k < 6 && is_requested(args, k) && p == catalog_packages()[k];
            let a: int = if k == 0 {
                0
            } else if k == 3 {
                1
            } else if k == 5 {
                2
            } else if k == 4 {
                3
            } else if k == 2 {
                4
            } else {
                5
            };
            assert(o[a] == k);
            assert(sel.contains(catalog_packages()[o[a]]));
        }
    }
}

/// Which component packages the arguments ask for, and the arguments that name
/// no component.
pub struct PackageRequest {
    /// Requested packages, sorted and without duplicates.
    pub packages: Vec<String>,
    /// Arguments that are neither `all` nor a component name or alias, in order.
    pub unknown: Vec<String>,
}

/// Map component names to package names; `all` expands to the full set.
pub fn resolve_packages(args: &Vec<String>) -> (r: PackageRequest)
    ensures
        r.packages@.len() == selected_packages(args@, 6).len(),
        forall|i: int| 0 <= i < r.packages@.len() ==> #[trigger] r.packages@[i]@ == selected_packages(args@, 6)[i],
        r.unknown@.len() == unknown_components(args@, args@.len() as int).len(),
        forall|i: int|
            0 <= i < r.unknown@.len() ==> #[trigger] r.unknown@[i]@ == unknown_components(
                args@,
                args@.len() as int,
            )[i],
        forall|i: int, j: int|
            0 <= i < j < r.packages@.len() ==> lex_lt(#[trigger] r.packages@[i]@, #[trigger] r.packages@[j]@),
        forall|p: Seq<char>|
            #[trigger] crate::resolve::string_views(r.packages@).contains(p) <==> exists|k: int|
                0 <= k < 6 && is_requested(args@, k) && p == catalog_packages()[k],
{
    let mut wanted: Vec<bool> = vec![false, false, false, false, false, false];
    let mut unknown: Vec<String> = Vec::new();
    let all = ['a', 'l', 'l'];
    assert(all@ == lit_all());
    let mut i: usize = 0;
    while i < args.len()
        invariant
            i <= args@.len(),
            all@ == lit_all(),
            wanted@.len() == 6,
            forall|k: int| 0 <= k < 6 ==> #[trigger] wanted@[k] == is_requested(args@.take(i as int), k),
            unknown@.len() == unknown_components(args@, i as int).len(),
            forall|j: int| 0 <= j < unknown@.len() ==> #[trigger] unknown@[j]@ == unknown_components(args@, i as int)[j],
        decreases args@.len() - i,
    {
        let ghost before = args@.take(i as int);
        let ghost after = args@.take(i + 1);
        assert(after.drop_last() =~= before);
        assert(after.last() == args@[i as int]);
        assert forall|k: int| 0 <= k < 6 implies is_requested(after, k) == (is_requested(before, k)
            || arg_selects(args@[i as int]@, k)) by {
            if is_requested(after, k) {
                let j = choose|j: int| 0 <= j < after.len() && arg_selects(#[trigger] after[j]@, k);
                if j < i {
                    assert(before[j] == after[j]);
                }
            }
            if is_requested(before, k) {
                let j = choose|j: int| 0 <= j < before.len() && arg_selects(#[trigger] before[j]@, k);
                assert(after[j] == before[j]);
            }
        }
        let arg = args[i].as_str();
        if str_is(arg, all.as_slice()) {
            let mut k: usize = 0;
            while k < 6
                invariant
                    k <= 6,
                    wanted@.len() == 6,
                    forall|j: int| 0 <= j < k ==> #[trigger] wanted@[j],
                    forall|j: int| k <= j < 6 ==> #[trigger] wanted@[j] == is_requested(before, j),
                decreases 6 - k,
            {
                wanted.set(k, true);
                k = k + 1;
            }
        } else {
            match component_index(arg) {
                Some(k) => {
                    assert forall|j: int| 0 <= j < 6 && j != k implies !arg_selects(args@[i as int]@, j) by {
                        crate::catalog::lemma_catalog_names_distinct();
                    }
                    wanted.set(k, true);
                },
                None => {
                    assert forall|j: int| 0 <= j < 6 implies !arg_selects(args@[i as int]@, j) by {
                        if arg_selects(args@[i as int]@, j) {
                            assert(catalog_names()[j] == resolve_alias(args@[i as int]@));
                        }
                    }
                    unknown.push(args[i].clone());
                },
            }
        }
        i = i + 1;
    }
    assert(args@.take(args@.len() as int) =~= args@);
    let order: [usize; 6] = [0, 3, 5, 4, 2, 1];
    let mut packages: Vec<String> = Vec::new();
    let mut n: usize = 0;
    while n < 6
        invariant
            n <= 6,
            order@ == seq![0usize, 3, 5, 4, 2, 1],
            wanted@.len() == 6,
            forall|k: int| 0 <= k < 6 ==> #[trigger] wanted@[k] == is_requested(args@, k),
            packages@.len() == selected_packages(args@, n as int).len(),
            forall|j: int| 0 <= j < packages@.len() ==> #[trigger] packages@[j]@ == selected_packages(args@, n as int)[j],
        decreases 6 - n,
    {
        let k = order[n];
        if wanted[k] {
            let c = catalog_entry(k);
            packages.push(c.package.to_owned());
        }
        n = n + 1;
    }
    proof {
        law_packages_sorted_and_exact(args@);
        assert(crate::resolve::string_views(packages@) =~= selected_packages(args@, 6));
    }
    PackageRequest { packages, unknown }
}


/// The exit status the router reports for a child that exited with `code`
/// (`None` when killed by a signal): the code when it fits in a byte, else 1.
pub fn exit_code_from(code: Option<i32>) -> (r: u8)
    ensures
        r == match code {
            Some(c) => if 0 <= c <= 255 {
                c as u8
            } else {
                1u8
            },
            None => 1u8,
        },
{
    match code {
        Some(c) => {
            if 0 <= c && c <= 255 {
                c as u8
            } else {
                1
            }
        },
        None => 1,
    }
}

/// `s` with every leading copy of `p` removed (as `str::trim_start_matches`).
pub open spec fn trim_start_matches(s: Seq<char>, p: Seq<char>) -> Seq<char>
    decreases s.len(),
{
    if p.len() > 0 && crate::text::starts_with(s, p) {
        trim_start_matches(s.skip(p.len() as int), p)
    } else {
        s
    }
}

/// The component name to suggest for installing package `pkg`: the package
/// name without its `idle-` prefixes.
pub fn install_hint_name(pkg: &str) -> (r: String)
    ensures
        r@ == trim_start_matches(pkg@, "idle-"@),
{
    let chars = str_chars(pkg);
    let prefix = str_chars("idle-");
    proof {
        reveal_strlit("idle-");
    }
    let rest = trim_start_chars(&chars, &prefix);
    crate::text::string_from_chars(&rest)
}

/// How a managed component's state reads: `installed (<version>)` when a
/// version is known, `installed`, or `not installed`.
pub open spec fn managed_state_spec(is_installed: bool, version: Option<Seq<char>>) -> Seq<char> {
    if !is_installed {
        "not installed"@
    } else {
        match version {
            Some(v) => "installed ("@ + v + ")"@,
            None => "installed"@,
        }
    }
}

/// The state line of a managed component.
pub fn managed_state(is_installed: bool, version: &Option<String>) -> (r: String)
    ensures
        r@ == managed_state_spec(
            is_installed,
            match version {
                Some(v) => Some(v@),
                None => None,
            },
        ),
{
    if !is_installed {
        return "not installed".to_string();
    }
    match version {
        Some(v) => {
            let mut s = "installed (".to_string();
            s.append(v.as_str());
            s.append(")");
            s
        },
        None => "installed".to_string(),
    }
}

/// A system package manager the router can drive.
#[derive(Clone, Copy, Debug, PartialEq, Eq, Structural)]
pub enum PackageManager {
    Dnf,
    Apt,
}

/// The package manager to use: `dnf` when present, else `apt`, else none.
pub fn package_manager(has_dnf: bool, has_apt: bool) -> (r: Option<PackageManager>)
    ensures
        r == (if has_dnf {
            Some(PackageManager::Dnf)
        } else if has_apt {
            Some(PackageManager::Apt)
        } else {
            None
        }),
{
    if has_dnf {
        Some(PackageManager::Dnf)
    } else if has_apt {
        Some(PackageManager::Apt)
    } else {
        None
    }
}


/// `s` with every trailing copy of `p` removed (as `str::trim_end_matches`).
pub open spec fn trim_end_matches(s: Seq<char>, p: Seq<char>) -> Seq<char>
    decreases s.len(),
{
    if p.len() > 0 && crate::text::ends_with(s, p) {
        trim_end_matches(s.take(s.len() - p.len()), p)
    } else {
        s
    }
}

/// The saver a plugin manifest file names: `<saver>.idleplugin.toml`, with
/// the manifest suffixes and any `libscreensaver_` prefixes removed.
pub open spec fn manifest_saver_spec(file_name: Seq<char>) -> Option<Seq<char>> {
    if crate::text::ends_with(file_name, ".idleplugin.toml"@) {
        Some(
            trim_start_matches(
                trim_end_matches(file_name, ".idleplugin.toml"@),
                "libscreensaver_"@,
            ),
        )
    } else {
        None
    }
}

/// `v` with every leading copy of `p` removed.
fn trim_start_chars(v: &Vec<char>, p: &Vec<char>) -> (r: Vec<char>)
    requires
        p@.len() > 0,
    ensures
        r@ == trim_start_matches(v@, p@),
{
    let mut start: usize = 0;
    assert(v@.skip(0) =~= v@);
    while start <= v.len() && crate::text::chars_match_at(v, start, p.as_slice())
        invariant
            start <= v@.len(),
            p@.len() > 0,
            trim_start_matches(v@, p@) == trim_start_matches(v@.skip(start as int), p@),
        decreases v@.len() - start,
    {
        proof {
            assert(v@.skip(start as int).take(p@.len() as int) =~= v@.subrange(start as int, start + p@.len()));
            assert(v@.skip(start as int).skip(p@.len() as int) =~= v@.skip(start + p@.len()));
        }
        start = start + p.len();
    }
    proof {
        if start + p@.len() <= v@.len() {
            assert(v@.skip(start as int).take(p@.len() as int) =~= v@.subrange(start as int, start + p@.len()));
        }
    }
    let rest = crate::text::chars_slice(v, start, v.len());
    assert(rest@ =~= v@.skip(start as int));
    rest
}

/// `v` with every trailing copy of `p` removed.
fn trim_end_chars(v: &Vec<char>, p: &Vec<char>) -> (r: Vec<char>)
    requires
        p@.len() > 0,
    ensures
        r@ == trim_end_matches(v@, p@),
{
    let mut end: usize = v.len();
    assert(v@.take(end as int) =~= v@);
    while end >= p.len() && crate::text::chars_match_at(v, end - p.len(), p.as_slice())
        invariant
            end <= v@.len(),
            p@.len() > 0,
            trim_end_matches(v@, p@) == trim_end_matches(v@.take(end as int), p@),
        decreases end,
    {
        proof {
            let t = v@.take(end as int);
            assert(t.skip(t.len() - p@.len()) =~= v@.subrange(end - p@.len(), end as int));
            assert(t.take(t.len() - p@.len()) =~= v@.take(end - p@.len()));
        }
        end = end - p.len();
    }
    proof {
        let t = v@.take(end as int);
        if end >= p@.len() {
            assert(t.skip(t.len() - p@.len()) =~= v@.subrange(end - p@.len(), end as int));
        }
    }
    crate::text::chars_slice(v, 0, end)
}

/// The saver named by a plugin manifest file name, if it is one.
pub fn manifest_saver(file_name: &str) -> (r: Option<String>)
    ensures
        match r {
            Some(s) => manifest_saver_spec(file_name@) == Some(s@),
            None => manifest_saver_spec(file_name@) is None,
        },
{
    let chars = str_chars(file_name);
    let suffix = str_chars(".idleplugin.toml");
    let prefix = str_chars("libscreensaver_");
    proof {
        reveal_strlit(".idleplugin.toml");
        reveal_strlit("libscreensaver_");
    }
    if !crate::text::chars_end_with(&chars, suffix.as_slice()) {
        return None;
    }
    let stem = trim_end_chars(&chars, &suffix);
    let name = trim_start_chars(&stem, &prefix);
    Some(crate::text::string_from_chars(&name))
}

} // verus!
