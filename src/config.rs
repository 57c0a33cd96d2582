//! The configuration envelope: what the controller hands to the injected
//! runtime through the child's environment, and how the runtime reads it.
use vstd::prelude::*;
use vstd::string::StringExecFns;
use vstd::string::StrSliceExecFns;
use crate::error::ChookError;
use crate::identity::{decimal_of, format_identity, is_identity_text, parse_identity, decimal_value};

verus! {

/// The variable that makes the dynamic loader preload a shared library.
pub const PRELOAD: &'static str = "LD_PRELOAD";

/// The variable carrying the authorized caller's identity, in decimal.
pub const ALLOWED_CALLING_PID: &'static str = "CHOOK__INTERNAL__ALLOWED_CALLING_PID";

/// The variable carrying the rendezvous socket's path.
pub const SOCKET_PATH: &'static str = "CHOOK__INTERNAL__SOCKET_PATH";

/// The variable carrying where the injected runtime logs.
pub const LOG_TO: &'static str = "CHOOK__INTERNAL__LOG_TO";

/// The name of the rendezvous socket inside its private directory.
pub const SOCKET_FILE_NAME: &'static str = "chook_control.sock";

/// How the injected runtime should log.
pub enum LogMode {
    /// One line per message to the file at this path, truncated at startup.
    File(String),
    Stdout,
    Stderr,
    /// Discard every message.
    Discard,
}

pub open spec fn file_scheme() -> Seq<char> {
    seq!['f', 'i', 'l', 'e', ':', '/', '/']
}

pub open spec fn stdout_word() -> Seq<char> {
    seq!['s', 't', 'd', 'o', 'u', 't']
}

pub open spec fn stderr_word() -> Seq<char> {
    seq!['s', 't', 'd', 'e', 'r', 'r']
}

pub open spec fn has_file_scheme(s: Seq<char>) -> bool {
    s.len() >= 7 && s.subrange(0, 7) == file_scheme()
}

/// The log-destination value for a mode; `None` when the variable is left out.
pub open spec fn log_target_of(mode: LogMode) -> Option<Seq<char>> {
    match mode {
        LogMode::File(p) => Some(file_scheme() + p@),
        LogMode::Stdout => Some(stdout_word()),
        LogMode::Stderr => Some(stderr_word()),
        LogMode::Discard => None,
    }
}

/// Whether the log-destination value `v` selects the mode `m`.
pub open spec fn selects(v: Option<Seq<char>>, m: LogMode) -> bool {
    match m {
        LogMode::Stdout => v == Some(stdout_word()),
        LogMode::Stderr => v == Some(stderr_word()),
        LogMode::File(p) => v matches Some(s) && has_file_scheme(s) && p@ == s.subrange(
            7,
            s.len() as int,
        ),
        LogMode::Discard => !(v matches Some(s) && (s == stdout_word() || s == stderr_word()
            || has_file_scheme(s))),
    }
}

/// The environment a child needs: preload `hooklib`, accept calls from
/// `pid`, rendezvous at `socket`, and log as `mode` says.
pub open spec fn launch_env_of(hooklib: Seq<char>, pid: i32, socket: Seq<char>, mode: LogMode) -> Seq<
    (Seq<char>, Seq<char>),
> {
    let base = seq![
        (PRELOAD@, hooklib),
        (ALLOWED_CALLING_PID@, decimal_of(pid as int)),
        (SOCKET_PATH@, socket),
    ];
    match log_target_of(mode) {
        Some(t) => base.push((LOG_TO@, t)),
        None => base,
    }
}

pub open spec fn env_view(v: Seq<(String, String)>) -> Seq<(Seq<char>, Seq<char>)> {
    v.map_values(|e: (String, String)| (e.0@, e.1@))
}

/// The path of a file called `name` inside the directory `dir`.
pub open spec fn path_join(dir: Seq<char>, name: Seq<char>) -> Seq<char> {
    if dir.len() == 0 || dir.last() == '/' {
        dir + name
    } else {
        dir + seq!['/'] + name
    }
}

/// Reading the log-destination value of a mode selects that mode again.
pub proof fn lemma_log_target_round_trip(mode: LogMode)
    ensures
        selects(log_target_of(mode), mode),
{
    match mode {
        LogMode::File(p) => {
            let s = file_scheme() + p@;
            assert(s.subrange(0, 7) =~= file_scheme());
            assert(s.subrange(7, s.len() as int) =~= p@);
        },
        _ => {},
    }
}

/// Reading back the environment written for `pid` yields `pid`.
pub proof fn lemma_launch_env_identity(hooklib: Seq<char>, pid: i32, socket: Seq<char>, mode: LogMode)
    ensures
        launch_env_of(hooklib, pid, socket, mode)[1].0 == ALLOWED_CALLING_PID@,
        decimal_value(launch_env_of(hooklib, pid, socket, mode)[1].1) == Some(pid as int),
        launch_env_of(hooklib, pid, socket, mode)[2] == (SOCKET_PATH@, socket),
{
    crate::identity::lemma_identity_round_trip(pid);
}

/// The log-destination value for `mode`, or `None` when the variable
/// should be left out.
pub fn log_target(mode: &LogMode) -> (r: Option<String>)
    ensures
        match log_target_of(*mode) {
            Some(t) => r matches Some(s) && s@ == t,
            None => r is None,
        },
{
    proof {
        reveal_strlit("file://");
        reveal_strlit("stdout");
        reveal_strlit("stderr");
    }
    match mode {
        LogMode::File(p) => {
            let mut s = "file://".to_string();
            s.append(p.as_str());
            assert(s@ =~= file_scheme() + p@);
            Some(s)
        },
        LogMode::Stdout => {
            let s = "stdout".to_string();
            assert(s@ =~= stdout_word());
            Some(s)
        },
        LogMode::Stderr => {
            let s = "stderr".to_string();
            assert(s@ =~= stderr_word());
            Some(s)
        },
        LogMode::Discard => None,
    }
}

fn same_text(s: &str, t: &str) -> (r: bool)
    ensures
        r == (s@ == t@),
{
    let n = s.unicode_len();
    if n != t.unicode_len() {
        return false;
    }
    assert(s@.subrange(0, n as int) =~= s@);
    starts_with(s, t)
}

fn starts_with(s: &str, t: &str) -> (r: bool)
    ensures
        r == (t@.len() <= s@.len() && s@.subrange(0, t@.len() as int) == t@),
{
    let n = t.unicode_len();
    if n > s.unicode_len() {
        return false;
    }
    let mut i: usize = 0;
    while i < n
        invariant
            n == t@.len(),
            n <= s@.len(),
            i <= n,
            forall|k: int| 0 <= k < i ==> s@[k] == t@[k],
        decreases n - i,
    {
        if s.get_char(i) != t.get_char(i) {
            assert(s@.subrange(0, n as int)[i as int] != t@[i as int]);
            return false;
        }
        i = i + 1;
    }
    assert(s@.subrange(0, n as int) =~= t@);
    true
}

/// The log mode selected by the log-destination value `v` (absent when
/// the variable is unset): `stdout`, `stderr`, `file://<path>`, and
/// anything else discards.
pub fn parse_log_target(v: Option<&str>) -> (r: LogMode)
    ensures
        selects(
            match v {
                Some(s) => Some(s@),
                None => None,
            },
            r,
        ),
{
    proof {
        reveal_strlit("file://");
        reveal_strlit("stdout");
        reveal_strlit("stderr");
        assert("stdout"@ =~= stdout_word());
        assert("stderr"@ =~= stderr_word());
        assert("file://"@ =~= file_scheme());
    }
    match v {
        Some(s) => {
            if same_text(s, "stdout") {
                LogMode::Stdout
            } else if same_text(s, "stderr") {
                LogMode::Stderr
            } else if starts_with(s, "file://") {
                let n = s.unicode_len();
                let path = s.substring_char(7, n).to_string();
                LogMode::File(path)
            } else {
                LogMode::Discard
            }
        },
        None => LogMode::Discard,
    }
}

/// The path of the rendezvous socket inside the directory `dir`.
pub fn socket_path_in(dir: &str) -> (r: String)
    ensures
        r@ == path_join(dir@, SOCKET_FILE_NAME@),
{
    let mut s = dir.to_string();
    let n = dir.unicode_len();
    if n != 0 && dir.get_char(n - 1) != '/' {
        proof {
            reveal_strlit("/");
        }
        s.append("/");
    }
    s.append(SOCKET_FILE_NAME);
    proof {
        if n != 0 && dir@.last() != '/' {
            assert(s@ =~= dir@ + seq!['/'] + SOCKET_FILE_NAME@);
        }
    }
    s
}

fn env_entry(key: &str, value: String) -> (r: (String, String))
    ensures
        r.0@ == key@,
        r.1@ == value@,
{
    (key.to_string(), value)
}

/// The environment entries to set on a child before it is spawned, so that
/// the injected runtime accepts calls from `pid` only.
pub fn launch_env(hooklib: &str, pid: i32, socket_path: &str, log_mode: &LogMode) -> (r: Vec<
    (String, String),
>)
    ensures
        env_view(r@) == launch_env_of(hooklib@, pid, socket_path@, *log_mode),
{
    let mut r: Vec<(String, String)> = Vec::new();
    r.push(env_entry(PRELOAD, hooklib.to_string()));
    r.push(env_entry(ALLOWED_CALLING_PID, format_identity(pid)));
    r.push(env_entry(SOCKET_PATH, socket_path.to_string()));
    match log_target(log_mode) {
        Some(t) => r.push(env_entry(LOG_TO, t)),
        None => {},
    }
    assert(env_view(r@) =~= launch_env_of(hooklib@, pid, socket_path@, *log_mode));
    r
}

/// Relies on nix's `Pid::this` (getpid) and `Pid::as_raw`: the id of the
/// calling process, which depends on the process and is not stated here.
#[verifier::external_body]
fn own_pid() -> (r: i32) {
    nix::unistd::Pid::this().as_raw()
}

/// The environment for a child whose injected runtime accepts calls from
/// this process only. Returns the identity it authorized beside it.
pub fn controller_env(hooklib: &str, socket_path: &str, log_mode: &LogMode) -> (r: (
    i32,
    Vec<(String, String)>,
))
    ensures
        env_view(r.1@) == launch_env_of(hooklib@, r.0, socket_path@, *log_mode),
{
    let pid = own_pid();
    (pid, launch_env(hooklib, pid, socket_path, log_mode))
}

/// What the injected runtime needs to serve calls.
pub struct RuntimeConfig {
    /// The only peer identity allowed to call in.
    pub allowed_pid: i32,
    /// Where to bind the rendezvous socket.
    pub socket_path: String,
}

/// The runtime's configuration from the values of the identity and socket
/// variables, absent when unset. Fails when either is missing or the
/// identity is not a decimal `i32`.
pub fn read_config(pid_text: Option<&str>, socket_path: Option<&str>) -> (r: Result<
    RuntimeConfig,
    ChookError,
>)
    ensures
        r is Ok <==> (pid_text matches Some(t) && is_identity_text(t@) && socket_path is Some),
        r matches Ok(c) ==> (pid_text matches Some(t) && decimal_value(t@) == Some(
            c.allowed_pid as int,
        )) && (socket_path matches Some(p) && c.socket_path@ == p@),
{
    let t = match pid_text {
        Some(t) => t,
        None => return Err(ChookError::new("getting allowed calling pid: not set")),
    };
    let p = match socket_path {
        Some(p) => p,
        None => return Err(ChookError::new("getting socket path: not set")),
    };
    let allowed_pid = parse_identity(t)?;
    Ok(RuntimeConfig { allowed_pid, socket_path: p.to_string() })
}

} // verus!
