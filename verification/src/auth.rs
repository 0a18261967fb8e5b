//! Authorization policy for D-Bus control methods: which peers may call them.
//!
//! Reading `/proc`, file metadata and credentials happens outside; the
//! decisions over what was read are here.

use vstd::prelude::*;

use crate::text::{chars_equal, chars_slice, str_chars, string_from_chars, trim_chars, trimmed};

verus! {

/// Linux `TASK_COMM_LEN` is 16 bytes including NUL: 15 visible characters in `/proc/pid/comm`.
pub const COMM_MAX: usize = 15;

/// Basenames of processes allowed to call control methods on the daemon.
pub open spec fn trusted_peer_names() -> Seq<Seq<char>> {
    seq![
        seq!['i', 'd', 'l', 'e'],
        seq!['i', 'd', 'l', 'e', '-', 'c', 'l', 'i'],
        seq!['i', 'd', 'l', 'e', '-', 't', 'u', 'i'],
        seq!['i', 'd', 'l', 'e', '-', 'a', 'p', 'p', 'l', 'e', 't'],
        seq!['t', 'r', 'a', 'n', 'c', 'e'],
        seq!['t', 'r', 'a', 'n', 'c', 'e', '-', 'a', 'p', 'p', 'l', 'e', 't'],
        seq!['t', 'r', 'a', 'n', 'c', 'e', '-', 't', 'u', 'i'],
        seq!['i', 'd', 'l', 'e', 's', 'c', 'r', 'e', 'e', 'n'],
    ]
}

/// Number of trusted peer basenames.
pub const TRUSTED_PEER_COUNT: usize = 8;

fn trusted_peer_chars(k: usize) -> (v: Vec<char>)
    requires
        k < 8,
    ensures
        v@ == trusted_peer_names()[k as int],
{
    let v = match k {
        0 => vec!['i', 'd', 'l', 'e'],
        1 => vec!['i', 'd', 'l', 'e', '-', 'c', 'l', 'i'],
        2 => vec!['i', 'd', 'l', 'e', '-', 't', 'u', 'i'],
        3 => vec!['i', 'd', 'l', 'e', '-', 'a', 'p', 'p', 'l', 'e', 't'],
        4 => vec!['t', 'r', 'a', 'n', 'c', 'e'],
        5 => vec!['t', 'r', 'a', 'n', 'c', 'e', '-', 'a', 'p', 'p', 'l', 'e', 't'],
        6 => vec!['t', 'r', 'a', 'n', 'c', 'e', '-', 't', 'u', 'i'],
        _ => vec!['i', 'd', 'l', 'e', 's', 'c', 'r', 'e', 'e', 'n'],
    };
    assert(v@ =~= trusted_peer_names()[k as int]);
    v
}

/// The basenames of processes allowed to call control methods, in order.
pub fn trusted_control_peers() -> (v: Vec<String>)
    ensures
        v@.len() == trusted_peer_names().len(),
        forall|k: int| 0 <= k < v@.len() ==> #[trigger] v@[k]@ == trusted_peer_names()[k],
{
    let mut v: Vec<String> = Vec::new();
    let mut k: usize = 0;
    while k < TRUSTED_PEER_COUNT
        invariant
            k <= 8,
            v@.len() == k,
            forall|j: int| 0 <= j < k ==> #[trigger] v@[j]@ == trusted_peer_names()[j],
        decreases 8 - k,
    {
        let chars = trusted_peer_chars(k);
        v.push(string_from_chars(&chars));
        k = k + 1;
    }
    v
}

/// Whether trusted name `name` matches the (trimmed) comm value `c`: equal, or
/// `c` is the kernel's 15-character truncation of a longer name.
pub open spec fn comm_matches_name(name: Seq<char>, c: Seq<char>) -> bool {
    name == c || (name.len() > COMM_MAX && name.take(COMM_MAX as int) == c)
}

/// A `/proc/pid/comm` value that names a trusted control peer.
pub open spec fn comm_matches_trusted_spec(comm: Seq<char>) -> bool {
    exists|k: int|
        0 <= k < trusted_peer_names().len() && comm_matches_name(
            #[trigger] trusted_peer_names()[k],
            trimmed(comm),
        )
}

/// Match a `/proc/pid/comm` value against trusted peer basenames (15-character truncation).
pub fn comm_matches_trusted(comm: &str) -> (r: bool)
    ensures
        r == comm_matches_trusted_spec(comm@),
{
    let raw = str_chars(comm);
    let c = trim_chars(&raw);
    let mut k: usize = 0;
    while k < TRUSTED_PEER_COUNT
        invariant
            k <= 8,
            c@ == trimmed(comm@),
            forall|j: int| 0 <= j < k ==> !comm_matches_name(#[trigger] trusted_peer_names()[j], c@),
        decreases 8 - k,
    {
        let name = trusted_peer_chars(k);
        if chars_equal(&c, name.as_slice()) {
            assert(comm_matches_name(trusted_peer_names()[k as int], c@));
            return true;
        }
        if name.len() > COMM_MAX {
            let head = chars_slice(&name, 0, COMM_MAX);
            assert(head@ =~= name@.take(COMM_MAX as int));
            if chars_equal(&c, head.as_slice()) {
                assert(comm_matches_name(trusted_peer_names()[k as int], c@));
                return true;
            }
        }
        k = k + 1;
    }
    assert forall|j: int| 0 <= j < trusted_peer_names().len() implies !comm_matches_name(
        #[trigger] trusted_peer_names()[j],
        trimmed(comm@),
    ) by {}
    false
}

/// A `/proc/pid/comm` read: the trimmed content, or `None` when it is blank.
pub fn comm_from_proc(raw: &str) -> (r: Option<String>)
    ensures
        match r {
            Some(name) => name@ == trimmed(raw@) && name@.len() > 0,
            None => trimmed(raw@).len() == 0,
        },
{
    let chars = str_chars(raw);
    let name = trim_chars(&chars);
    if name.len() == 0 {
        None
    } else {
        Some(string_from_chars(&name))
    }
}

/// The peer's Unix UID must be known and equal to ours; when our own UID is
/// unknown, only a peer whose UID is also unknown passes.
pub open spec fn uid_matches_spec(our_uid: Option<u32>, peer_uid: Option<u32>) -> bool {
    match our_uid {
        None => peer_uid is None,
        Some(ours) => peer_uid == Some(ours),
    }
}

/// Require the peer Unix UID to match our effective UID (same-user defense in depth).
pub fn uid_matches(our_uid: Option<u32>, peer_uid: Option<u32>) -> (r: bool)
    ensures
        r == uid_matches_spec(our_uid, peer_uid),
{
    match our_uid {
        None => peer_uid.is_none(),
        Some(ours) => match peer_uid {
            Some(uid) => uid == ours,
            None => false,
        },
    }
}

/// Result of inspecting a peer executable path.
#[derive(Clone, Copy, Debug, PartialEq, Eq, Structural)]
pub enum PeerExeCheck {
    /// Path readable and matches a trusted name and install prefix (and ownership).
    Trusted,
    /// Path readable but not an allowed control client.
    Untrusted,
    /// `/proc/<pid>/exe` cannot be resolved (common under systemd hardening + Yama).
    Unreadable,
}

/// What was learned about a resolved peer executable.
pub struct PeerExeFacts {
    /// The executable's file name, when it is valid UTF-8.
    pub file_name: Option<String>,
    /// The executable's directory (empty when it has none or it is not UTF-8).
    pub parent: String,
    /// Development builds only: the executable sits beside our own executable.
    pub dev_same_dir: bool,
    /// `(mode, uid)` of the executable, when it could be read.
    pub metadata: Option<(u32, u32)>,
}

pub open spec fn usr_bin() -> Seq<char> {
    seq!['/', 'u', 's', 'r', '/', 'b', 'i', 'n']
}

pub open spec fn usr_local_bin() -> Seq<char> {
    seq!['/', 'u', 's', 'r', '/', 'l', 'o', 'c', 'a', 'l', '/', 'b', 'i', 'n']
}

/// How a resolved peer executable (or `None` when it could not be resolved) is classified.
pub open spec fn classify_peer_exe_spec(facts: Option<PeerExeFacts>) -> PeerExeCheck {
    match facts {
        None => PeerExeCheck::Unreadable,
        Some(f) => {
            let system = f.parent@ == usr_bin() || f.parent@ == usr_local_bin();
            match f.file_name {
                None => PeerExeCheck::Untrusted,
                Some(name) => if !trusted_peer_names().contains(name@) {
                    PeerExeCheck::Untrusted
                } else if !(system || f.dev_same_dir) {
                    PeerExeCheck::Untrusted
                } else {
                    match f.metadata {
                        None => PeerExeCheck::Untrusted,
                        Some((mode, uid)) => if mode & 0o002 != 0 {
                            PeerExeCheck::Untrusted
                        } else if system && uid != 0 && uid != 65534 {
                            PeerExeCheck::Untrusted
                        } else {
                            PeerExeCheck::Trusted
                        },
                    }
                },
            }
        },
    }
}

/// Whether `name` is one of the trusted peer basenames.
fn is_trusted_peer_name(name: &Vec<char>) -> (r: bool)
    ensures
        r == trusted_peer_names().contains(name@),
{
    let mut k: usize = 0;
    while k < TRUSTED_PEER_COUNT
        invariant
            k <= 8,
            forall|j: int| 0 <= j < k ==> trusted_peer_names()[j] != name@,
        decreases 8 - k,
    {
        let candidate = trusted_peer_chars(k);
        if chars_equal(name, candidate.as_slice()) {
            assert(trusted_peer_names()[k as int] == name@);
            return true;
        }
        k = k + 1;
    }
    assert forall|j: int| 0 <= j < trusted_peer_names().len() implies trusted_peer_names()[j]
        != name@ by {}
    false
}

/// Classify a peer executable from what was read about it: trusted only when
/// its name is allowlisted, it lives in `/usr/bin` or `/usr/local/bin` (or,
/// in development builds, beside our own executable), it is not world-writable
/// and, in a system prefix, owned by root (or `nobody`).
pub fn classify_peer_exe(facts: &Option<PeerExeFacts>) -> (r: PeerExeCheck)
    ensures
        r == classify_peer_exe_spec(*facts),
{
    let f = match facts {
        None => {
            return PeerExeCheck::Unreadable;
        },
        Some(f) => f,
    };
    let name = match &f.file_name {
        None => {
            return PeerExeCheck::Untrusted;
        },
        Some(n) => str_chars(n.as_str()),
    };
    if !is_trusted_peer_name(&name) {
        return PeerExeCheck::Untrusted;
    }
    let parent = str_chars(f.parent.as_str());
    let usr = ['/', 'u', 's', 'r', '/', 'b', 'i', 'n'];
    let usr_local = ['/', 'u', 's', 'r', '/', 'l', 'o', 'c', 'a', 'l', '/', 'b', 'i', 'n'];
    assert(usr@ == usr_bin());
    assert(usr_local@ == usr_local_bin());
    let system = chars_equal(&parent, usr.as_slice()) || chars_equal(&parent, usr_local.as_slice());
    if !(system || f.dev_same_dir) {
        return PeerExeCheck::Untrusted;
    }
    match f.metadata {
        None => PeerExeCheck::Untrusted,
        Some((mode, uid)) => {
            if mode & 0o002 != 0 {
                PeerExeCheck::Untrusted
            } else if system && uid != 0 && uid != 65534 {
                PeerExeCheck::Untrusted
            } else {
                PeerExeCheck::Trusted
            }
        },
    }
}

/// The control-peer policy over what was observed about the peer.
///
/// `exe` is the first inspection of the peer executable and `exe_recheck` a
/// second one (consulted only after a `Trusted` first result, narrowing the
/// window for the executable to change); `comm` is the peer's
/// `/proc/pid/comm` (consulted only when the executable is unreadable).
pub open spec fn is_trusted_control_peer_spec(
    trust_all: bool,
    uid_ok: bool,
    exe: PeerExeCheck,
    exe_recheck: PeerExeCheck,
    comm: Option<Seq<char>>,
) -> bool {
    if trust_all {
        true
    } else if !uid_ok {
        false
    } else {
        match exe {
            PeerExeCheck::Trusted => exe_recheck == PeerExeCheck::Trusted,
            PeerExeCheck::Untrusted => false,
            PeerExeCheck::Unreadable => match comm {
                Some(c) => comm_matches_trusted_spec(c),
                None => false,
            },
        }
    }
}

/// Decide whether a peer may call control methods.
///
/// Same-UID alone is never enough: the executable must be trusted (twice in a
/// row), or, when it cannot be read, its `comm` must name a trusted client.
/// `trust_all` is the development-build escape hatch.
pub fn is_trusted_control_peer(
    trust_all: bool,
    uid_ok: bool,
    exe: PeerExeCheck,
    exe_recheck: PeerExeCheck,
    comm: &Option<String>,
) -> (r: bool)
    ensures
        r == is_trusted_control_peer_spec(
            trust_all,
            uid_ok,
            exe,
            exe_recheck,
            match comm {
                Some(c) => Some(c@),
                None => None,
            },
        ),
{
    if trust_all {
        return true;
    }
    if !uid_ok {
        return false;
    }
    match exe {
        PeerExeCheck::Trusted => match exe_recheck {
            PeerExeCheck::Trusted => true,
            _ => false,
        },
        PeerExeCheck::Untrusted => false,
        PeerExeCheck::Unreadable => match comm {
            Some(c) => comm_matches_trusted(c.as_str()),
            None => false,
        },
    }
}

} // verus!
