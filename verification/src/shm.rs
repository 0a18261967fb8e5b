//! The checks that guard the shared-memory cell grid between the daemon and a
//! screensaver runner, the names a session gives its shared objects, and the
//! command line that starts the runner.
//!
//! Mapping and unmapping happen outside; what is refused, and why, is here.

use vstd::prelude::*;

use crate::path_safety::{is_shm_name_char, is_valid_shm_name, is_valid_shm_name_spec, shm_prefix};
use crate::text::{decimal, decimal_chars, hex, hex_chars, lemma_decimal_digits, lemma_decimal_len, pow10, push_all, str_chars, string_from_chars};

verus! {

/// Largest shared-memory object a session may create or open (64 MiB).
pub const SHM_MAX_SIZE: usize = 67108864;

/// Why a shared-memory request or header was refused.
#[derive(Debug)]
pub enum ShmError {
    /// The object name is not a session name (see [`is_valid_shm_name`]).
    InvalidName(String),
    /// The size is below the header or above [`SHM_MAX_SIZE`].
    SizeOutOfRange(usize),
    /// The header carries a magic that is neither 0 nor the expected one.
    BadMagic { found: u32, expected: u32 },
    /// `cols * rows` does not fit in `usize`.
    CellCountOverflow,
    /// The cells' byte count does not fit in `usize`.
    CellBytesOverflow,
    /// Header plus cells do not fit in `usize`.
    SizeOverflow,
    /// The grid the header describes does not fit in the mapping.
    DimsExceedMap { cols: usize, rows: usize, needed: usize, map_size: usize },
}

/// The message shown for a refusal.
pub open spec fn shm_error_text(e: ShmError) -> Seq<char> {
    match e {
        ShmError::InvalidName(name) => "invalid shm name: "@ + name@,
        ShmError::SizeOutOfRange(size) => "shm size out of range: "@ + decimal(size as nat),
        ShmError::BadMagic { found, expected } => "shm header magic 0x"@ + hex(found as nat)
            + " != expected 0x"@ + hex(expected as nat),
        ShmError::CellCountOverflow => "shm header cell count overflow"@,
        ShmError::CellBytesOverflow => "shm cell byte count overflow"@,
        ShmError::SizeOverflow => "shm size overflow"@,
        ShmError::DimsExceedMap { cols, rows, needed, map_size } => "shm header dims "@ + decimal(
            cols as nat,
        ) + "x"@ + decimal(rows as nat) + " need "@ + decimal(needed as nat) + " bytes, map is "@
            + decimal(map_size as nat),
    }
}

/// `n` in decimal, as a `String`.
fn decimal_string(n: usize) -> (s: String)
    ensures
        s@ == decimal(n as nat),
{
    let v = decimal_chars(n as u64);
    string_from_chars(&v)
}

impl ShmError {
    /// The message shown for this refusal.
    pub fn message(&self) -> (m: String)
        ensures
            m@ == shm_error_text(*self),
    {
        match self {
            ShmError::InvalidName(name) => {
                let mut m = String::new();
                m.append("invalid shm name: ");
                m.append(name.as_str());
                m
            },
            ShmError::SizeOutOfRange(size) => {
                let mut m = String::new();
                m.append("shm size out of range: ");
                m.append(decimal_string(*size).as_str());
                m
            },
            ShmError::BadMagic { found, expected } => {
                let f = hex_chars(*found as u64);
                let x = hex_chars(*expected as u64);
                let mut m = String::new();
                m.append("shm header magic 0x");
                m.append(string_from_chars(&f).as_str());
                m.append(" != expected 0x");
                m.append(string_from_chars(&x).as_str());
                m
            },
            ShmError::CellCountOverflow => "shm header cell count overflow".to_string(),
            ShmError::CellBytesOverflow => "shm cell byte count overflow".to_string(),
            ShmError::SizeOverflow => "shm size overflow".to_string(),
            ShmError::DimsExceedMap { cols, rows, needed, map_size } => {
                let mut m = String::new();
                m.append("shm header dims ");
                m.append(decimal_string(*cols).as_str());
                m.append("x");
                m.append(decimal_string(*rows).as_str());
                m.append(" need ");
                m.append(decimal_string(*needed).as_str());
                m.append(" bytes, map is ");
                m.append(decimal_string(*map_size).as_str());
                m
            },
        }
    }
}

/// A request to create or open `name` with `size` bytes is acceptable.
pub open spec fn shm_request_ok(name: Seq<char>, size: int, header_size: int) -> bool {
    is_valid_shm_name_spec(name) && header_size <= size <= SHM_MAX_SIZE
}

/// Check a request to create or open the shared object `name` of `size`
/// bytes, whose header takes `header_size` bytes: the name first, then the size.
pub fn check_shm_request(name: &str, size: usize, header_size: usize) -> (r: Result<(), ShmError>)
    ensures
        r is Ok <==> shm_request_ok(name@, size as int, header_size as int),
        match r {
            Ok(_) => true,
            Err(ShmError::InvalidName(n)) => n@ == name@ && !is_valid_shm_name_spec(name@),
            Err(ShmError::SizeOutOfRange(s)) => s == size && is_valid_shm_name_spec(name@) && (size
                < header_size || size > SHM_MAX_SIZE),
            Err(_) => false,
        },
{
    if !is_valid_shm_name(name) {
        return Err(ShmError::InvalidName(name.to_string()));
    }
    if size < header_size || size > SHM_MAX_SIZE {
        return Err(ShmError::SizeOutOfRange(size));
    }
    Ok(())
}

/// Number of cells a header of `cols x rows` describes, when its magic is 0
/// (not yet initialised) or `expected_magic`, the byte counts fit in `usize`,
/// and header plus cells fit in `map_size` bytes.
pub open spec fn cell_count_spec(
    magic: u32,
    cols: u32,
    rows: u32,
    map_size: int,
    header_size: int,
    cell_size: int,
    expected_magic: u32,
) -> Option<int> {
    if magic != 0 && magic != expected_magic {
        None
    } else if cols * rows > usize::MAX || cols * rows * cell_size > usize::MAX || header_size + cols
        * rows * cell_size > usize::MAX {
        None
    } else if header_size + cols * rows * cell_size > map_size {
        None
    } else {
        Some(cols * rows)
    }
}

/// Validate a shared-memory header before viewing the cells behind it: the
/// number of cells that follow the header, or why the view is refused.
pub fn header_cell_count(
    magic: u32,
    cols: u32,
    rows: u32,
    map_size: usize,
    header_size: usize,
    cell_size: usize,
    expected_magic: u32,
) -> (r: Result<usize, ShmError>)
    ensures
        match r {
            Ok(n) => cell_count_spec(
                magic,
                cols,
                rows,
                map_size as int,
                header_size as int,
                cell_size as int,
                expected_magic,
            ) == Some(n as int),
            Err(ShmError::BadMagic { found, expected }) => found == magic && expected == expected_magic
                && magic != 0 && magic != expected_magic,
            Err(ShmError::DimsExceedMap { cols: c, rows: rw, needed, map_size: m }) => c == cols && rw
                == rows && m == map_size && needed == header_size + cols * rows * cell_size && needed
                > map_size,
            Err(ShmError::CellCountOverflow) => cols * rows > usize::MAX,
            Err(ShmError::CellBytesOverflow) => cols * rows * cell_size > usize::MAX,
            Err(ShmError::SizeOverflow) => header_size + cols * rows * cell_size > usize::MAX,
            Err(_) => false,
        },
        magic != 0 && magic != expected_magic ==> r == Err::<usize, ShmError>(
            ShmError::BadMagic { found: magic, expected: expected_magic },
        ),
        r is Err ==> cell_count_spec(
            magic,
            cols,
            rows,
            map_size as int,
            header_size as int,
            cell_size as int,
            expected_magic,
        ) is None,
{
    if magic != 0 && magic != expected_magic {
        return Err(ShmError::BadMagic { found: magic, expected: expected_magic });
    }
    let c = cols as usize;
    let r = rows as usize;
    let count = match c.checked_mul(r) {
        Some(n) => n,
        None => {
            return Err(ShmError::CellCountOverflow);
        },
    };
    let bytes = match count.checked_mul(cell_size) {
        Some(n) => n,
        None => {
            proof {
                assert(cols * rows * cell_size > usize::MAX);
            }
            return Err(ShmError::CellBytesOverflow);
        },
    };
    let needed = match header_size.checked_add(bytes) {
        Some(n) => n,
        None => {
            return Err(ShmError::SizeOverflow);
        },
    };
    if needed > map_size {
        return Err(ShmError::DimsExceedMap { cols: c, rows: r, needed, map_size });
    }
    Ok(count)
}

/// `/trance-shm-<pid>-<index>`: the shared-memory name of a session.
pub open spec fn session_shm_name_spec(pid: u32, index: u64) -> Seq<char> {
    shm_prefix() + decimal(pid as nat) + seq!['-'] + decimal(index as nat)
}

/// `trance-uds-<pid>-<index>.sock`: the socket file name of a session.
pub open spec fn session_socket_name_spec(pid: u32, index: u64) -> Seq<char> {
    "trance-uds-"@ + decimal(pid as nat) + seq!['-'] + decimal(index as nat) + ".sock"@
}

/// The shared-memory name the daemon gives session `index` of process `pid`.
pub fn session_shm_name(pid: u32, index: u64) -> (s: String)
    ensures
        s@ == session_shm_name_spec(pid, index),
{
    let prefix = ['/', 't', 'r', 'a', 'n', 'c', 'e', '-', 's', 'h', 'm', '-'];
    assert(prefix@ == shm_prefix());
    let mut v: Vec<char> = Vec::new();
    push_all(&mut v, prefix.as_slice());
    let p = decimal_chars(pid as u64);
    push_all(&mut v, p.as_slice());
    v.push('-');
    let i = decimal_chars(index);
    push_all(&mut v, i.as_slice());
    string_from_chars(&v)
}

/// The socket file name the daemon gives session `index` of process `pid`.
pub fn session_socket_name(pid: u32, index: u64) -> (s: String)
    ensures
        s@ == session_socket_name_spec(pid, index),
{
    let mut v = str_chars("trance-uds-");
    let p = decimal_chars(pid as u64);
    push_all(&mut v, p.as_slice());
    v.push('-');
    let i = decimal_chars(index);
    push_all(&mut v, i.as_slice());
    let suffix = str_chars(".sock");
    push_all(&mut v, suffix.as_slice());
    string_from_chars(&v)
}


/// Directory of the session sockets: `$XDG_RUNTIME_DIR` (private to the
/// user) when set to a directory, else the temporary directory.
pub open spec fn socket_dir_spec(runtime_dir: Option<Seq<char>>, runtime_is_dir: bool, temp_dir: Seq<
    char,
>) -> Seq<char> {
    match runtime_dir {
        Some(d) => if runtime_is_dir {
            d
        } else {
            temp_dir
        },
        None => temp_dir,
    }
}

/// Path of the socket of session `index` of process `pid`.
pub fn session_socket_path(
    runtime_dir: Option<&str>,
    runtime_is_dir: bool,
    temp_dir: &str,
    pid: u32,
    index: u64,
) -> (p: String)
    ensures
        p@ == crate::discovery::path_join(
            socket_dir_spec(crate::text::opt_view(runtime_dir), runtime_is_dir, temp_dir@),
            session_socket_name_spec(pid, index),
        ),
{
    let mut v = match runtime_dir {
        Some(d) => if runtime_is_dir {
            str_chars(d)
        } else {
            str_chars(temp_dir)
        },
        None => str_chars(temp_dir),
    };
    let name = session_socket_name(pid, index);
    let n = str_chars(name.as_str());
    crate::discovery::join_chars(&mut v, n.as_slice());
    string_from_chars(&v)
}

/// The arguments the daemon starts a session's runner with: the runner
/// subcommand, the saver, the socket path, the shared-memory name, the grid
/// size, whether the GPU is used, and the render scale as text.
pub open spec fn runner_args_spec(
    saver: Seq<char>,
    socket_path: Seq<char>,
    shm_name: Seq<char>,
    cols: usize,
    rows: usize,
    gpu_enabled: bool,
    scale_text: Seq<char>,
) -> Seq<Seq<char>> {
    seq![
        "run-ipc-runner"@,
        saver,
        socket_path,
        shm_name,
        decimal(cols as nat),
        decimal(rows as nat),
        if gpu_enabled {
            "true"@
        } else {
            "false"@
        },
        scale_text,
    ]
}

/// The runner's arguments (see [`runner_args_spec`]); `scale_text` is the
/// render scale written with six decimals.
pub fn runner_args(
    saver: &str,
    socket_path: &str,
    shm_name: &str,
    cols: usize,
    rows: usize,
    gpu_enabled: bool,
    scale_text: &str,
) -> (args: Vec<String>)
    ensures
        crate::resolve::string_views(args@) == runner_args_spec(
            saver@,
            socket_path@,
            shm_name@,
            cols,
            rows,
            gpu_enabled,
            scale_text@,
        ),
{
    let mut args: Vec<String> = Vec::new();
    args.push("run-ipc-runner".to_string());
    args.push(saver.to_string());
    args.push(socket_path.to_string());
    args.push(shm_name.to_string());
    let c = decimal_chars(cols as u64);
    args.push(string_from_chars(&c));
    let r = decimal_chars(rows as u64);
    args.push(string_from_chars(&r));
    if gpu_enabled {
        args.push("true".to_string());
    } else {
        args.push("false".to_string());
    }
    args.push(scale_text.to_string());
    assert(crate::resolve::string_views(args@) =~= runner_args_spec(
        saver@,
        socket_path@,
        shm_name@,
        cols,
        rows,
        gpu_enabled,
        scale_text@,
    ));
    args
}

/// Every shared-memory name the daemon gives a session passes the name check
/// that `create` and `open` apply.
pub proof fn law_session_shm_names_are_valid(pid: u32, index: u64)
    ensures
        is_valid_shm_name_spec(session_shm_name_spec(pid, index)),
{
    let name = session_shm_name_spec(pid, index);
    let p = decimal(pid as nat);
    let i = decimal(index as nat);
    lemma_decimal_digits(pid as nat);
    lemma_decimal_digits(index as nat);
    assert(pow10(10) == 10000000000) by {
        reveal_with_fuel(pow10, 11);
    }
    assert(pow10(20) == 100000000000000000000) by {
        reveal_with_fuel(pow10, 21);
    }
    lemma_decimal_len(pid as nat, 10);
    lemma_decimal_len(index as nat, 20);
    assert(name.take(shm_prefix().len() as int) =~= shm_prefix());
    assert forall|k: int| shm_prefix().len() <= k < name.len() implies is_shm_name_char(
        #[trigger] name[k],
    ) by {
        let off = k - shm_prefix().len();
        if off < p.len() {
            assert(name[k] == p[off]);
        } else if off == p.len() {
            assert(name[k] == '-');
        } else {
            assert(name[k] == i[off - p.len() - 1]);
        }
    }
}

} // verus!
