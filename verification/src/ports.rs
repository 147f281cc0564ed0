//! Injectable ports for process spawning, time, notifications, clipboard and paths.
//!
//! The adapters that talk to the system (process groups, notify-send, wl-copy)
//! sit behind these traits. Argv and paths are UTF-8 text.

use vstd::prelude::*;
use vstd::string::*;
use vstd::utf8::encode_utf8;

use crate::path::{is_absolute, is_absolute_path, join_path, joined_path};
use crate::text::{concat2, decimal, decimal_int, i64_to_string, opt_str_view, to_chars, u64_to_string};

verus! {

/// Cap on the child stderr that is kept, in bytes.
pub const STDERR_TAIL_MAX: usize = 4096;

/// Cap on the child stdout that is captured (slurp geometry), in bytes.
pub const STDOUT_CAPTURE_MAX: usize = 4096;

/// Signals used to stop a recorder process group.
#[derive(Debug, Clone, Copy, PartialEq, Eq, Structural, Hash)]
pub enum Signal {
    /// SIGINT: first stop signal (cooperative finalize).
    Interrupt,
    /// SIGTERM: escalation after the SIGINT timeout.
    Terminate,
    /// SIGKILL: only after the SIGTERM timeout.
    Kill,
}

impl Signal {
    pub open spec fn name(self) -> Seq<char> {
        match self {
            Signal::Interrupt => "SIGINT"@,
            Signal::Terminate => "SIGTERM"@,
            Signal::Kill => "SIGKILL"@,
        }
    }

    /// The conventional name of the signal.
    pub fn as_str(self) -> (r: &'static str)
        ensures
            r@ == self.name(),
    {
        match self {
            Signal::Interrupt => "SIGINT",
            Signal::Terminate => "SIGTERM",
            Signal::Kill => "SIGKILL",
        }
    }
}

/// How a child process exited.
#[derive(Debug, Clone, Copy, PartialEq, Eq, Structural)]
pub enum ExitStatus {
    Code(i32),
    Signal(i32),
}

impl ExitStatus {
    /// `exit CODE` or `signal NUMBER`.
    pub open spec fn text(self) -> Seq<char> {
        match self {
            ExitStatus::Code(c) => "exit "@ + decimal_int(c as int),
            ExitStatus::Signal(s) => "signal "@ + decimal_int(s as int),
        }
    }

    /// Whether the child exited with code zero.
    pub fn success(self) -> (r: bool)
        ensures
            r == (self == ExitStatus::Code(0)),
    {
        match self {
            ExitStatus::Code(c) => c == 0,
            ExitStatus::Signal(_) => false,
        }
    }

    /// The exit code, unless a signal ended the child.
    pub fn code(self) -> (r: Option<i32>)
        ensures
            r == (match self {
                ExitStatus::Code(c) => Some(c),
                ExitStatus::Signal(_) => None,
            }),
    {
        match self {
            ExitStatus::Code(c) => Some(c),
            ExitStatus::Signal(_) => None,
        }
    }

    /// The text shown for the status.
    pub fn to_text(self) -> (r: String)
        ensures
            r@ == self.text(),
    {
        match self {
            ExitStatus::Code(c) => concat2("exit ", i64_to_string(c as i64).as_str()),
            ExitStatus::Signal(s) => concat2("signal ", i64_to_string(s as i64).as_str()),
        }
    }
}

/// Options for spawning an external command (argv only, never a shell).
#[derive(Debug, Clone, Copy, PartialEq, Eq, Structural)]
pub struct SpawnOpts {
    /// Put the child in a new process group, so that the group can be signalled.
    pub new_process_group: bool,
}

impl Default for SpawnOpts {
    fn default() -> (r: Self)
        ensures
            r == (SpawnOpts { new_process_group: false }),
    {
        SpawnOpts { new_process_group: false }
    }
}

/// A wall-clock instant: seconds from the Unix epoch, and nanoseconds after them.
#[derive(Debug, Clone, Copy, PartialEq, Eq, Structural)]
pub struct Timestamp {
    pub secs: i64,
    pub nanos: u32,
}

impl Timestamp {
    /// Nanoseconds from the Unix epoch.
    pub open spec fn total_nanos(self) -> int {
        self.secs * 1_000_000_000 + self.nanos
    }

    /// Whole seconds from the Unix epoch; nothing for an earlier instant.
    pub open spec fn unix_secs(self) -> Option<int> {
        if self.total_nanos() < 0 {
            None
        } else {
            Some(self.total_nanos() / 1_000_000_000)
        }
    }

    /// Whole milliseconds from `start` to this instant; nothing if `start` is later.
    pub open spec fn millis_since(self, start: Timestamp) -> Option<int> {
        if self.total_nanos() < start.total_nanos() {
            None
        } else {
            Some((self.total_nanos() - start.total_nanos()) / 1_000_000)
        }
    }

    fn nanos_from_epoch(self) -> (r: i128)
        ensures
            r == self.total_nanos(),
    {
        (self.secs as i128) * 1_000_000_000 + self.nanos as i128
    }

    /// Whole seconds from the Unix epoch; nothing for an earlier instant.
    pub fn unix_seconds(self) -> (r: Option<u64>)
        ensures
            r is Some <==> self.unix_secs() is Some,
            r matches Some(s) ==> s == self.unix_secs()->0,
    {
        let n: i128 = self.nanos_from_epoch();
        if n < 0 {
            None
        } else {
            Some((n / 1_000_000_000) as u64)
        }
    }

    /// Milliseconds from `start` to this instant, kept to 64 bits; nothing if
    /// `start` is later.
    pub fn millis_after(self, start: Timestamp) -> (r: Option<u64>)
        ensures
            r == (match self.millis_since(start) {
                Some(ms) => Some(ms as u64),
                None => None,
            }),
    {
        let a: i128 = self.nanos_from_epoch();
        let b: i128 = start.nanos_from_epoch();
        if a < b {
            None
        } else {
            Some(#[verifier::truncate] (((a - b) / 1_000_000) as u64))
        }
    }
}

/// Handle to a spawned child process.
pub trait ChildHandle {
    /// OS process id.
    fn id(&self) -> u32;

    /// Deliver `signal` to the process only.
    fn signal(&mut self, signal: Signal) -> Result<(), PortError>;

    /// Deliver `signal` to the child's process group.
    fn signal_group(&mut self, signal: Signal) -> Result<(), PortError>;

    /// Non-blocking poll for exit.
    fn try_wait(&mut self) -> Result<Option<ExitStatus>, PortError>;

    /// Block until the child exits.
    fn wait(&mut self) -> Result<ExitStatus, PortError>;

    /// Bounded wait, in milliseconds. `None` if still running when the time is over.
    fn wait_timeout(&mut self, timeout_ms: u64) -> Result<Option<ExitStatus>, PortError>;

    /// Stdout captured from the child (slurp geometry). Empty by default.
    fn take_stdout(&mut self) -> (r: String)
        default_ensures
            r@ == Seq::<char>::empty(),
            &*final(self) == &*old(self),
    {
        String::new()
    }

    /// Bounded stderr tail for error messages. Empty by default.
    fn take_stderr_tail(&mut self) -> (r: String)
        default_ensures
            r@ == Seq::<char>::empty(),
            &*final(self) == &*old(self),
    {
        String::new()
    }
}

/// Spawns argv-only commands.
pub trait CommandSpawner {
    type Child: ChildHandle;

    /// Spawn `argv[0]` with the arguments after it.
    fn spawn(&mut self, argv: &Vec<String>, opts: SpawnOpts) -> Result<Self::Child, PortError>;

    /// Whether `binary` can be run.
    fn command_exists(&self, binary: &str) -> bool;
}

/// Wall-clock time for file names and elapsed times, and pauses.
pub trait Clock {
    fn now(&self) -> Timestamp;

    /// Pause for `millis` milliseconds.
    fn sleep(&self, millis: u64);
}

/// Desktop notifications.
pub trait Notifier {
    fn notify(&mut self, title: &str, body: &str) -> Result<(), PortError>;
}

/// Clipboard that takes text.
pub trait Clipboard {
    fn copy_text(&mut self, text: &str) -> Result<(), PortError>;
}

/// Resolves config, output and runtime paths.
pub trait Paths {
    fn config_path(&self) -> String;

    fn output_dir(&self) -> String;

    fn runtime_dir(&self) -> String;

    fn home_dir(&self) -> String;
}

/// Errors that port adapters report.
#[derive(Debug, Clone, PartialEq, Eq)]
pub enum PortError {
    Spawn(String),
    Signal(String),
    Wait(String),
    Io(String),
    NotFound(String),
    Other(String),
}

impl PortError {
    /// The message shown for the error.
    pub open spec fn text(self) -> Seq<char> {
        match self {
            PortError::Spawn(s) => "spawn failed: "@ + s@,
            PortError::Signal(s) => "signal failed: "@ + s@,
            PortError::Wait(s) => "wait failed: "@ + s@,
            PortError::Io(s) => "io error: "@ + s@,
            PortError::NotFound(s) => "not found: "@ + s@,
            PortError::Other(s) => s@,
        }
    }

    /// The message shown for the error.
    pub fn to_text(&self) -> (r: String)
        ensures
            r@ == self.text(),
    {
        match self {
            PortError::Spawn(s) => concat2("spawn failed: ", s.as_str()),
            PortError::Signal(s) => concat2("signal failed: ", s.as_str()),
            PortError::Wait(s) => concat2("wait failed: ", s.as_str()),
            PortError::Io(s) => concat2("io error: ", s.as_str()),
            PortError::NotFound(s) => concat2("not found: ", s.as_str()),
            PortError::Other(s) => s.clone(),
        }
    }
}

// ---------------------------------------------------------------------------
// Path defaults
// ---------------------------------------------------------------------------

/// The Videos directory: the user directory where one is given, else `Videos`
/// below the home directory.
pub open spec fn videos_dir(home: Seq<char>, xdg: Option<Seq<char>>) -> Seq<char> {
    match xdg {
        Some(p) => if p.len() > 0 {
            p
        } else {
            joined_path(home, "Videos"@)
        },
        None => joined_path(home, "Videos"@),
    }
}

/// Default Videos directory: `xdg-user-dir` result if given, else `~/Videos`.
pub fn default_videos_dir(home: &str, xdg_user_dir_videos: Option<&str>) -> (r: String)
    ensures
        r@ == videos_dir(home@, opt_str_view(xdg_user_dir_videos)),
{
    if let Some(p) = xdg_user_dir_videos {
        if !p.is_empty() {
            return p.to_owned();
        }
    }
    join_path(home, "Videos")
}

/// Config file path: `$XDG_CONFIG_HOME/hyprcap/config.toml` or the same below
/// `~/.config`.
pub fn default_config_path(xdg_config_home: Option<&str>, home: &str) -> (r: String)
    ensures
        r@ == joined_path(
            joined_path(
                match xdg_config_home {
                    Some(p) => p@,
                    None => joined_path(home@, ".config"@),
                },
                "hyprcap"@,
            ),
            "config.toml"@,
        ),
{
    let base = match xdg_config_home {
        Some(p) => p.to_owned(),
        None => join_path(home, ".config"),
    };
    join_path(join_path(base.as_str(), "hyprcap").as_str(), "config.toml")
}

/// Runtime directory for socket and pid file: `$XDG_RUNTIME_DIR`, else
/// `/run/user/UID`, never a directory below `/tmp`.
pub fn default_runtime_dir(xdg_runtime_dir: Option<&str>, uid: u32) -> (r: String)
    ensures
        r@ == (match xdg_runtime_dir {
            Some(p) => if p@.len() > 0 {
                p@
            } else {
                "/run/user/"@ + decimal(uid as nat)
            },
            None => "/run/user/"@ + decimal(uid as nat),
        }),
{
    if let Some(p) = xdg_runtime_dir {
        if !p.is_empty() {
            return p.to_owned();
        }
    }
    concat2("/run/user/", u64_to_string(uid as u64).as_str())
}

/// `path` made absolute: below `cwd` when it is relative.
pub open spec fn absolute_path(path: Seq<char>, cwd: Seq<char>) -> Seq<char> {
    if is_absolute_path(path) {
        path
    } else {
        joined_path(cwd, path)
    }
}

/// Make `path` absolute, using `cwd` when it is relative.
pub fn absolutize_path(path: &str, cwd: &str) -> (r: String)
    ensures
        r@ == absolute_path(path@, cwd@),
{
    if is_absolute(path) {
        path.to_owned()
    } else {
        join_path(cwd, path)
    }
}

// ---------------------------------------------------------------------------
// Stderr tail
// ---------------------------------------------------------------------------

/// `tail` is the longest end of `s` that takes at most `max` bytes as UTF-8.
pub open spec fn is_longest_tail(tail: Seq<char>, s: Seq<char>, max: nat) -> bool {
    exists|k: int|
        {
            &&& 0 <= k <= s.len()
            &&& tail == #[trigger] s.skip(k)
            &&& encode_utf8(tail).len() <= max
            &&& k > 0 ==> encode_utf8(s.skip(k - 1)).len() > max
        }
}

fn utf8_width(c: char) -> (r: usize)
    ensures
        1 <= r <= 4,
        r == encode_utf8(seq![c]).len(),
{
    proof {
        reveal_with_fuel(encode_utf8, 2);
        assert(seq![c].drop_first() =~= Seq::<char>::empty());
    }
    let u: u32 = c as u32;
    if u <= 0x7f {
        1
    } else if u <= 0x7ff {
        2
    } else if u <= 0xffff {
        3
    } else {
        4
    }
}

proof fn lemma_encode_front(s: Seq<char>)
    requires
        s.len() > 0,
    ensures
        encode_utf8(s).len() == encode_utf8(seq![s[0]]).len() + encode_utf8(s.drop_first()).len(),
{
    reveal_with_fuel(encode_utf8, 2);
    assert(seq![s[0]].drop_first() =~= Seq::<char>::empty());
}

/// The end of `s` that fits in [`STDERR_TAIL_MAX`] bytes, on a character boundary.
pub fn truncate_stderr_tail(s: &str) -> (r: String)
    ensures
        is_longest_tail(r@, s@, STDERR_TAIL_MAX as nat),
{
    let cs = to_chars(s);
    let n: usize = cs.len();
    let mut k: usize = n;
    let mut total: usize = 0;
    assert(s@.skip(n as int) =~= Seq::<char>::empty());
    while k > 0
        invariant
            k <= n,
            n == cs.len(),
            cs@ == s@,
            total <= STDERR_TAIL_MAX,
            total == encode_utf8(s@.skip(k as int)).len(),
        decreases k,
    {
        let w: usize = utf8_width(cs[k - 1]);
        proof {
            let t = s@.skip(k - 1);
            lemma_encode_front(t);
            assert(t.drop_first() =~= s@.skip(k as int));
            assert(t[0] == s@[k - 1]);
        }
        if total + w > STDERR_TAIL_MAX {
            assert(s@.skip(k as int) =~= s@.subrange(k as int, n as int));
            return s.substring_char(k, n).to_owned();
        }
        total = total + w;
        k = k - 1;
    }
    assert(s@.skip(0) =~= s@);
    s.to_owned()
}

} // verus!
