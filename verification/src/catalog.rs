//! The IdleScreen component catalog: the single source of truth the router
//! dispatches on. Runnable components exec their binary; managed components
//! have no user-facing binary (they are installed, versioned and checked only).

use vstd::prelude::*;

use crate::text::{chars_equal, str_chars};

verus! {

/// A product component.
#[derive(Clone, Copy, Debug)]
pub struct Component {
    /// Name users type after `idlescreen`.
    pub name: &'static str,
    /// System package that provides the component.
    pub package: &'static str,
    /// Binary the component execs, if runnable.
    pub binary: Option<&'static str>,
    /// One-line description for listings.
    pub desc: &'static str,
}

/// Number of catalogued components.
pub const COMPONENT_COUNT: usize = 6;

/// Component names, in catalogue order.
pub open spec fn catalog_names() -> Seq<Seq<char>> {
    seq![
        seq!['c', 'l', 'i'],
        seq!['t', 'u', 'i'],
        seq!['s', 't', 'u', 'd', 'i', 'o'],
        seq!['c', 'o', 's', 'm', 'i', 'c'],
        seq!['s', 'a', 'v', 'e', 'r', 's'],
        seq!['r', 'u', 'n', 't', 'i', 'm', 'e'],
    ]
}

/// Component packages, in catalogue order.
pub open spec fn catalog_packages() -> Seq<Seq<char>> {
    seq![
        seq!['i', 'd', 'l', 'e', '-', 'c', 'l', 'i'],
        seq!['i', 'd', 'l', 'e', '-', 't', 'u', 'i'],
        seq!['i', 'd', 'l', 'e', '-', 's', 't', 'u', 'd', 'i', 'o'],
        seq!['i', 'd', 'l', 'e', '-', 'c', 'o', 's', 'm', 'i', 'c'],
        seq!['i', 'd', 'l', 'e', '-', 's', 'a', 'v', 'e', 'r', 's'],
        seq!['i', 'd', 'l', 'e', '-', 'd', 'a', 'e', 'm', 'o', 'n'],
    ]
}

/// Component binaries, in catalogue order (`None` for managed components).
pub open spec fn catalog_binaries() -> Seq<Option<Seq<char>>> {
    seq![
        Some(seq!['i', 'd', 'l', 'e', '-', 'c', 'l', 'i']),
        Some(seq!['i', 'd', 'l', 'e', '-', 't', 'u', 'i']),
        Some(seq!['i', 'd', 'l', 'e', '-', 's', 't', 'u', 'd', 'i', 'o']),
        Some(seq!['i', 'd', 'l', 'e', 's', 'c', 'r', 'e', 'e', 'n', '-', 'a', 'p', 'p', 'l', 'e', 't']),
        None,
        None,
    ]
}

/// The binary of a component, as characters.
pub open spec fn binary_view(b: Option<&'static str>) -> Option<Seq<char>> {
    match b {
        Some(s) => Some(s@),
        None => None,
    }
}

/// `c` is the `k`-th catalogue entry (name, package and binary).
pub open spec fn is_catalog_entry(c: Component, k: int) -> bool {
    &&& 0 <= k < catalog_names().len()
    &&& c.name@ == catalog_names()[k]
    &&& c.package@ == catalog_packages()[k]
    &&& binary_view(c.binary) == catalog_binaries()[k]
}

/// The `k`-th catalogue entry.
pub fn catalog_entry(k: usize) -> (c: Component)
    requires
        k < 6,
    ensures
        is_catalog_entry(c, k as int),
{
    let c = match k {
        0 => Component {
            name: "cli",
            package: "idle-cli",
            binary: Some("idle-cli"),
            desc: "protocol commands — preview, stop, list, status, config",
        },
        1 => Component {
            name: "tui",
            package: "idle-tui",
            binary: Some("idle-tui"),
            desc: "runtime configuration TUI",
        },
        2 => Component {
            name: "studio",
            package: "idle-studio",
            binary: Some("idle-studio"),
            desc: "offline render queue TUI",
        },
        3 => Component {
            name: "cosmic",
            package: "idle-cosmic",
            binary: Some("idlescreen-applet"),
            desc: "COSMIC panel applet",
        },
        4 => Component {
            name: "savers",
            package: "idle-savers",
            binary: None,
            desc: "all official saver plugins (metapackage)",
        },
        _ => Component {
            name: "runtime",
            package: "idle-daemon",
            binary: None,
            desc: "daemon + plugin runtime (the engine underneath)",
        },
    };
    proof {
        reveal_strlit("cli");
        reveal_strlit("idle-cli");
        reveal_strlit("tui");
        reveal_strlit("idle-tui");
        reveal_strlit("studio");
        reveal_strlit("idle-studio");
        reveal_strlit("cosmic");
        reveal_strlit("idle-cosmic");
        reveal_strlit("idlescreen-applet");
        reveal_strlit("savers");
        reveal_strlit("idle-savers");
        reveal_strlit("runtime");
        reveal_strlit("idle-daemon");
        assert(c.name@ =~= catalog_names()[k as int]);
        assert(c.package@ =~= catalog_packages()[k as int]);
        match c.binary {
            Some(b) => {
                assert(b@ =~= catalog_binaries()[k as int]->0);
            },
            None => {},
        }
    }
    c
}

/// The component catalogue, in order.
pub fn component_catalog() -> (v: Vec<Component>)
    ensures
        v@.len() == catalog_names().len(),
        forall|k: int| 0 <= k < v@.len() ==> is_catalog_entry(#[trigger] v@[k], k),
{
    let mut v: Vec<Component> = Vec::new();
    let mut k: usize = 0;
    while k < COMPONENT_COUNT
        invariant
            k <= 6,
            v@.len() == k,
            forall|j: int| 0 <= j < k ==> is_catalog_entry(#[trigger] v@[j], j),
        decreases 6 - k,
    {
        v.push(catalog_entry(k));
        k = k + 1;
    }
    v
}

/// Alternate names accepted for components: `daemon` and `idle` for `runtime`,
/// `plugins` for `savers`.
pub open spec fn resolve_alias(name: Seq<char>) -> Seq<char> {
    if name == seq!['d', 'a', 'e', 'm', 'o', 'n'] || name == seq!['i', 'd', 'l', 'e'] {
        seq!['r', 'u', 'n', 't', 'i', 'm', 'e']
    } else if name == seq!['p', 'l', 'u', 'g', 'i', 'n', 's'] {
        seq!['s', 'a', 'v', 'e', 'r', 's']
    } else {
        name
    }
}

/// Component names are pairwise distinct, so a name picks at most one entry.
pub proof fn lemma_catalog_names_distinct()
    ensures
        forall|i: int, j: int|
            0 <= i < catalog_names().len() && 0 <= j < catalog_names().len() && i != j
                ==> catalog_names()[i] != catalog_names()[j],
{
    assert forall|i: int, j: int|
        0 <= i < catalog_names().len() && 0 <= j < catalog_names().len() && i != j
            implies catalog_names()[i] != catalog_names()[j] by {
        if catalog_names()[i] == catalog_names()[j] {
            assert(catalog_names()[i].len() == catalog_names()[j].len());
            assert(catalog_names()[i][0] == catalog_names()[j][0]);
            assert(catalog_names()[i][1] == catalog_names()[j][1]);
        }
    }
}

/// Catalogue index of the component a name or alias refers to.
pub fn component_index(name: &str) -> (r: Option<usize>)
    ensures
        match r {
            Some(k) => k < catalog_names().len() && catalog_names()[k as int] == resolve_alias(name@),
            None => !catalog_names().contains(resolve_alias(name@)),
        },
{
    let chars = str_chars(name);
    let daemon = ['d', 'a', 'e', 'm', 'o', 'n'];
    let idle = ['i', 'd', 'l', 'e'];
    let plugins = ['p', 'l', 'u', 'g', 'i', 'n', 's'];
    let runtime = vec!['r', 'u', 'n', 't', 'i', 'm', 'e'];
    let savers = vec!['s', 'a', 'v', 'e', 'r', 's'];
    assert(daemon@ == seq!['d', 'a', 'e', 'm', 'o', 'n']);
    assert(idle@ == seq!['i', 'd', 'l', 'e']);
    assert(plugins@ == seq!['p', 'l', 'u', 'g', 'i', 'n', 's']);
    assert(runtime@ == seq!['r', 'u', 'n', 't', 'i', 'm', 'e']);
    assert(savers@ == seq!['s', 'a', 'v', 'e', 'r', 's']);
    let target = if chars_equal(&chars, daemon.as_slice()) || chars_equal(&chars, idle.as_slice()) {
        runtime
    } else if chars_equal(&chars, plugins.as_slice()) {
        savers
    } else {
        chars
    };
    assert(target@ == resolve_alias(name@));
    let mut k: usize = 0;
    while k < COMPONENT_COUNT
        invariant
            k <= 6,
            target@ == resolve_alias(name@),
            forall|j: int| 0 <= j < k ==> catalog_names()[j] != target@,
        decreases 6 - k,
    {
        let c = catalog_entry(k);
        let cname = str_chars(c.name);
        if chars_equal(&target, cname.as_slice()) {
            return Some(k);
        }
        k = k + 1;
    }
    assert forall|j: int| 0 <= j < catalog_names().len() implies catalog_names()[j] != target@ by {}
    None
}

/// Look up a component by name or alias.
pub fn lookup(name: &str) -> (r: Option<Component>)
    ensures
        match r {
            Some(c) => exists|k: int|
                is_catalog_entry(c, k) && catalog_names()[k] == resolve_alias(name@),
            None => !catalog_names().contains(resolve_alias(name@)),
        },
{
    match component_index(name) {
        Some(k) => Some(catalog_entry(k)),
        None => None,
    }
}

/// Whether a component is present on this machine: its binary is on `PATH`,
/// or, for managed components, its package reports a version.
pub open spec fn installed_spec(
    c: Component,
    binary_on_path: bool,
    package_version: Option<Seq<char>>,
) -> bool {
    match c.binary {
        Some(_) => binary_on_path,
        None => package_version is Some,
    }
}

/// Whether a component is present, given the result of its one probe:
/// `binary_on_path` for runnable components, `package_version` for managed ones.
pub fn installed(c: &Component, binary_on_path: bool, package_version: &Option<String>) -> (r: bool)
    ensures
        r == installed_spec(
            *c,
            binary_on_path,
            match package_version {
                Some(v) => Some(v@),
                None => None,
            },
        ),
{
    match c.binary {
        Some(_) => binary_on_path,
        None => package_version.is_some(),
    }
}

} // verus!
