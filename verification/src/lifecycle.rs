//! How a session server comes to be and is found: its private directory, the
//! lock on it, and whether a server is there or has to be started.

use vstd::prelude::*;
use vstd::string::*;

use crate::path::{is_absolute, is_absolute_path, join_path, joined_path};
use crate::text::{
    concat2, concat3, concat5, decimal, has_char, has_prefix, opt_view, parse_u32, parsed_u32,
    split_char, split_of, starts_with, str_eq, trim, trim_of, u64_to_string, views,
};

verus! {

// ---------------------------------------------------------------------------
// The runtime directory
// ---------------------------------------------------------------------------

/// A part of a path that names something.
pub open spec fn is_component(s: Seq<char>) -> bool {
    s.len() > 0 && s != "."@
}

/// The parts of a path that name something.
pub open spec fn components(p: Seq<char>) -> Seq<Seq<char>> {
    split_of(p, '/').filter(|s: Seq<char>| is_component(s))
}

/// Whether a path is the shared directory `/tmp` itself.
pub open spec fn is_shared_tmp(p: Seq<char>) -> bool {
    is_absolute_path(p) && components(p) == seq!["tmp"@]
}

fn is_bare_tmp(dir: &str) -> (r: bool)
    ensures
        r == is_shared_tmp(dir@),
{
    let parts = split_char(dir, '/');
    let mut kept: Vec<String> = Vec::new();
    let mut i: usize = 0;
    let ghost all = split_of(dir@, '/');
    let ghost f = |s: Seq<char>| is_component(s);
    assert(views(kept@) =~= all.take(0).filter(f)) by {
        reveal(Seq::filter);
    }
    while i < parts.len()
        invariant
            i <= parts.len(),
            views(parts@) == all,
            f == (|s: Seq<char>| is_component(s)),
            views(kept@) == all.take(i as int).filter(f),
        decreases parts.len() - i,
    {
        let ghost before = kept@;
        proof {
            reveal(Seq::filter);
            let next = all.take(i + 1);
            assert(parts@.len() == all.len());
            assert(next.drop_last() =~= all.take(i as int));
            assert(all[i as int] == parts@[i as int]@);
            assert(next.last() == parts@[i as int]@);
        }
        let part = parts[i].as_str();
        if !part.is_empty() && !str_eq(part, ".") {
            kept.push(part.to_owned());
            assert(views(kept@) =~= views(before).push(parts@[i as int]@));
        }
        i = i + 1;
    }
    assert(parts@.len() == all.len());
    assert(all.take(parts@.len() as int) =~= all);
    let r = is_absolute(dir) && kept.len() == 1 && str_eq(kept[0].as_str(), "tmp");
    proof {
        assert(views(kept@).len() == kept.len());
        if kept.len() == 1 {
            assert(views(kept@)[0] == kept@[0]@);
            assert(kept@[0]@ == "tmp"@ ==> views(kept@) =~= seq!["tmp"@]);
            assert(views(kept@) == seq!["tmp"@] ==> kept@[0]@ == seq!["tmp"@][0]);
        }
    }
    r
}

/// What is found of a runtime directory.
#[derive(Debug, Clone, Copy, PartialEq, Eq, Structural)]
pub struct DirFacts {
    pub is_dir: bool,
    pub owner: u32,
    pub mode: u32,
}

/// What follows from it.
#[derive(Debug, Clone, PartialEq, Eq)]
pub enum DirVerdict {
    /// It can be used.
    Private,
    /// Its mode has to become `0700` first.
    Tighten,
    /// It cannot be used, and why.
    Refuse(String),
}

/// The message why a runtime directory cannot be used whatever its mode.
pub open spec fn refused_dir(dir: Seq<char>, facts: DirFacts, euid: u32) -> Option<Seq<char>> {
    if !facts.is_dir {
        Some("runtime path is not a directory: "@ + dir)
    } else if facts.owner != euid {
        Some(
            "runtime dir "@ + dir + " not owned by current user (uid "@ + decimal(
                facts.owner as nat,
            ) + " != euid "@ + decimal(euid as nat) + ")"@,
        )
    } else {
        None
    }
}

/// The mode lets the group or others write.
pub open spec fn is_open_to_others(mode: u32) -> bool {
    mode & 0o022 != 0
}

/// The message why a runtime path is refused before it is looked at.
pub fn refuse_runtime_path(dir: &str) -> (r: Option<String>)
    ensures
        opt_view(r) == (if is_shared_tmp(dir@) {
            Some(
                "refusing control socket in /tmp; set XDG_RUNTIME_DIR to a private directory"@,
            )
        } else {
            None
        }),
{
    if is_bare_tmp(dir) {
        Some(
            "refusing control socket in /tmp; set XDG_RUNTIME_DIR to a private directory".to_owned(),
        )
    } else {
        None
    }
}

/// What follows from what is found of a runtime directory.
pub fn judge_runtime_dir(dir: &str, facts: DirFacts, euid: u32) -> (r: DirVerdict)
    ensures
        match refused_dir(dir@, facts, euid) {
            Some(m) => r is Refuse && r->Refuse_0@ == m,
            None => if is_open_to_others(facts.mode) {
                r is Tighten
            } else {
                r is Private
            },
        },
{
    if !facts.is_dir {
        return DirVerdict::Refuse(concat2("runtime path is not a directory: ", dir));
    }
    if facts.owner != euid {
        let mut m = concat5(
            "runtime dir ",
            dir,
            " not owned by current user (uid ",
            u64_to_string(facts.owner as u64).as_str(),
            " != euid ",
        );
        m.append(u64_to_string(euid as u64).as_str());
        m.append(")");
        return DirVerdict::Refuse(m);
    }
    if facts.mode & 0o022 != 0 {
        DirVerdict::Tighten
    } else {
        DirVerdict::Private
    }
}

/// What follows from the mode after it was tightened.
pub fn judge_tightened(dir: &str, mode: u32) -> (r: Result<(), String>)
    ensures
        match r {
            Ok(_) => !is_open_to_others(mode),
            Err(m) => is_open_to_others(mode) && m@ == "runtime dir "@ + dir@
                + " remains group/other-writable after chmod"@,
        },
{
    if mode & 0o022 != 0 {
        Err(concat3("runtime dir ", dir, " remains group/other-writable after chmod"))
    } else {
        Ok(())
    }
}

// ---------------------------------------------------------------------------
// Pid files
// ---------------------------------------------------------------------------

/// The process id in a pid file.
pub fn parse_pid(text: &str) -> (r: Option<u32>)
    ensures
        r == parsed_u32(trim_of(text@)),
{
    parse_u32(trim(text))
}

/// The text of a pid file.
pub fn pid_file_text(pid: u32) -> (r: String)
    ensures
        r@ == decimal(pid as nat) + "\n"@,
{
    concat2(u64_to_string(pid as u64).as_str(), "\n")
}

/// Whether a process with the command name `comm` is a session server.
pub fn is_server_command(comm: &str) -> (r: bool)
    ensures
        r == has_prefix(trim_of(comm@), "record-ui"@),
{
    starts_with(trim(comm), "record-ui")
}

/// A pid file that was written gives the process id back.
pub proof fn pid_file_reads_back(pid: u32)
    ensures
        parsed_u32(trim_of(decimal(pid as nat) + "\n"@)) == Some(pid),
{
    crate::text::parse_reads_back_decimal(pid);
    reveal_strlit("\n");
    let d = decimal(pid as nat);
    let s = d + "\n"@;
    crate::text::lemma_decimal_digits(pid as nat);
    assert(crate::text::is_digit(d[0]));
    assert(s[0] == d[0]);
    assert(crate::text::trim_start_of(s) == s);
    assert(s.last() == '\n');
    assert(s.drop_last() =~= d);
    assert(crate::text::is_digit(d.last()));
    assert(crate::text::trim_end_of(s) == crate::text::trim_end_of(d));
    assert(crate::text::trim_end_of(d) == d);
}

/// Where to look for a program: a name with a slash stands for itself, others
/// are looked for in each directory of the search path.
pub open spec fn program_candidates(binary: Seq<char>, dirs: Seq<Seq<char>>) -> Seq<Seq<char>> {
    if binary.contains('/') {
        seq![binary]
    } else {
        dirs.map_values(|d: Seq<char>| joined_path(d, binary))
    }
}

/// Where to look for a program, in order.
pub fn which_candidates(binary: &str, dirs: &Vec<String>) -> (r: Vec<String>)
    ensures
        views(r@) == program_candidates(binary@, views(dirs@)),
{
    let mut out: Vec<String> = Vec::new();
    if has_char(binary, '/') {
        out.push(binary.to_owned());
        assert(views(out@) =~= seq![binary@]);
        return out;
    }
    let mut i: usize = 0;
    while i < dirs.len()
        invariant
            i <= dirs.len(),
            out.len() == i,
            forall|k: int| 0 <= k < i ==> (#[trigger] out@[k])@ == joined_path(dirs@[k]@, binary@),
        decreases dirs.len() - i,
    {
        out.push(join_path(dirs[i].as_str(), binary));
        i = i + 1;
    }
    assert(views(out@) =~= views(dirs@).map_values(|d: Seq<char>| joined_path(d, binary@)));
    out
}

// ---------------------------------------------------------------------------
// Finding or starting a server
// ---------------------------------------------------------------------------

/// Whether the socket in use belongs to a server that is alive.
#[derive(Debug, Clone, Copy, PartialEq, Eq, Structural)]
pub enum BindVerdict {
    AlreadyRunning,
    /// The socket was left behind: it can be removed and bound again.
    TakeOver,
}

/// The socket is in use: a server that answers, or whose process is alive, keeps
/// it.
pub fn recover_or_busy(connects: bool, pid_is_live_server: bool) -> (r: BindVerdict)
    ensures
        r == (if connects || pid_is_live_server {
            BindVerdict::AlreadyRunning
        } else {
            BindVerdict::TakeOver
        }),
{
    if connects || pid_is_live_server {
        BindVerdict::AlreadyRunning
    } else {
        BindVerdict::TakeOver
    }
}

/// What a client does to reach a server.
#[derive(Debug, Clone, Copy, PartialEq, Eq, Structural)]
pub enum EnsureStep {
    /// One answers.
    Ready,
    /// One is alive and should answer soon.
    Await,
    /// One has to be started; what is left of an earlier one is removed first.
    Start { clear: bool },
}

/// What a client does to reach a server.
pub fn ensure_step(connects: bool, socket_exists: bool, pid_is_live_server: bool) -> (r: EnsureStep)
    ensures
        r == (if connects {
            EnsureStep::Ready
        } else if socket_exists && pid_is_live_server {
            EnsureStep::Await
        } else {
            EnsureStep::Start { clear: socket_exists }
        }),
{
    if connects {
        EnsureStep::Ready
    } else if socket_exists && pid_is_live_server {
        EnsureStep::Await
    } else {
        EnsureStep::Start { clear: socket_exists }
    }
}

/// A server that is alive was waited for.
pub fn awaited_server(accepting: bool) -> (r: Result<(), String>)
    ensures
        match r {
            Ok(_) => accepting,
            Err(m) => !accepting && m@ == "server pid alive but socket not accepting"@,
        },
{
    if accepting {
        Ok(())
    } else {
        Err("server pid alive but socket not accepting".to_owned())
    }
}

/// A server that was started was waited for; `failed` is how it ended, if it
/// ended with a failure.
pub fn started_server(accepting: bool, failed: Option<&str>) -> (r: Result<(), String>)
    ensures
        match r {
            Ok(_) => accepting && failed is None,
            Err(m) => if accepting {
                failed is Some && m@ == "server exited immediately: "@ + failed->0@
            } else {
                m@ == "timeout waiting for server socket"@
            },
        },
{
    if !accepting {
        return Err("timeout waiting for server socket".to_owned());
    }
    match failed {
        Some(status) => Err(concat2("server exited immediately: ", status)),
        None => Ok(()),
    }
}

/// How often a request is tried.
pub const REQUEST_ATTEMPTS: u32 = 3;

/// What follows when the server could not be connected to.
#[derive(Debug, Clone, PartialEq, Eq)]
pub enum Retry {
    /// Try again after a pause.
    Again { delay_ms: u64 },
    GiveUp(String),
}

/// What follows when attempt number `attempt`, counted from zero, could not
/// connect.
pub fn retry_request(attempt: u32, error: &str) -> (r: Retry)
    ensures
        match r {
            Retry::Again { delay_ms } => attempt + 1 < REQUEST_ATTEMPTS && delay_ms == 50 * (attempt
                + 1),
            Retry::GiveUp(m) => attempt + 1 >= REQUEST_ATTEMPTS && m@
                == "failed after 3 attempts: connect: "@ + error@,
        },
{
    if attempt < REQUEST_ATTEMPTS - 1 {
        Retry::Again { delay_ms: 50 * (attempt as u64 + 1) }
    } else {
        Retry::GiveUp(concat2("failed after 3 attempts: connect: ", error))
    }
}

} // verus!
