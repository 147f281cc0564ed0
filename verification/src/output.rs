//! What a recording captures and where it goes: the output to capture, the
//! frame rate, the recorder's argv, and the file name.

use vstd::prelude::*;
use vstd::string::*;

use crate::audio::{clean, cleaned};
use crate::calendar::{before_epoch, format_timestamp, is_stamp};
use crate::path::{is_absolute_path, join_path, joined_path};
use crate::ports::{PortError, Timestamp};
use crate::text::{
    concat3, concat5, contains_string, decimal, join, joined, opt_str_view, u64_to_string, views,
};

verus! {

// ---------------------------------------------------------------------------
// Output and frame rate
// ---------------------------------------------------------------------------

/// How `Debug` of the standard library writes a string: in double quotes, with
/// escapes where it needs them.
pub uninterp spec fn debug_text(s: Seq<char>) -> Seq<char>;

/// `format!` with `{:?}` of a string. The text depends on the string alone; which
/// characters are escaped, and how, is not stated.
#[verifier::external_body]
fn debug_string(s: &str) -> (r: String)
    ensures
        r@ == debug_text(s@),
{
    format!("{:?}", s)
}

/// The known outputs, for a message.
pub open spec fn known_outputs(inventory: Seq<Seq<char>>) -> Seq<char> {
    if inventory.len() == 0 {
        "(none)"@
    } else {
        joined(inventory, ", "@)
    }
}

/// The message for a chosen output when no output is known.
pub open spec fn no_outputs_for(name: Seq<char>) -> Seq<char> {
    "cannot resolve Wayland output "@ + debug_text(name)
        + ": no outputs discovered (is hyprctl/wf-recorder available?). Set fullscreen_output only when list-outputs shows names."@
}

/// The message for a chosen output that is not known.
pub open spec fn unknown_output(name: Seq<char>, inventory: Seq<Seq<char>>) -> Seq<char> {
    "unknown Wayland output "@ + debug_text(name) + "; known: "@ + known_outputs(inventory)
        + ". Use record-ui list-outputs or set fullscreen_output in ~/.config/record-ui/config.toml"@
}

/// The message when nothing is chosen and no output is known.
pub open spec fn no_outputs() -> Seq<char> {
    "cannot resolve Wayland output: no outputs discovered (hyprctl monitors / wf-recorder -L). Multi-monitor setups need fullscreen_output in ~/.config/record-ui/config.toml or --output NAME (record-ui list-outputs)."@
}

/// The message when nothing is chosen and several outputs are known.
pub open spec fn several_outputs(inventory: Seq<Seq<char>>) -> Seq<char> {
    "multi-monitor: set fullscreen_output in ~/.config/record-ui/config.toml or pass --output NAME (known: "@
        + known_outputs(inventory) + "). See also: record-ui list-outputs"@
}

/// The output to capture: the requested one, else the configured one, else the
/// only one. A chosen output that is not in the inventory is refused.
pub open spec fn resolved_output(
    requested: Option<Seq<char>>,
    pinned: Option<Seq<char>>,
    inventory: Seq<Seq<char>>,
) -> Result<Seq<char>, Seq<char>> {
    let chosen = match cleaned(requested) {
        Some(n) => Some(n),
        None => cleaned(pinned),
    };
    match chosen {
        Some(name) => if inventory.len() == 0 {
            Err(no_outputs_for(name))
        } else if inventory.contains(name) {
            Ok(name)
        } else {
            Err(unknown_output(name, inventory))
        },
        None => if inventory.len() == 0 {
            Err(no_outputs())
        } else if inventory.len() == 1 {
            Ok(inventory[0])
        } else {
            Err(several_outputs(inventory))
        },
    }
}

fn format_known_outputs(inventory: &Vec<String>) -> (r: String)
    ensures
        r@ == known_outputs(views(inventory@)),
{
    if inventory.len() == 0 {
        "(none)".to_owned()
    } else {
        join(inventory, ", ")
    }
}

/// The output to capture, or the message why none can be told.
pub fn resolve_fullscreen_output(
    override_name: Option<&str>,
    config_pin: Option<&str>,
    inventory: &Vec<String>,
) -> (r: Result<String, String>)
    ensures
        match r {
            Ok(n) => resolved_output(
                opt_str_view(override_name),
                opt_str_view(config_pin),
                views(inventory@),
            ) == Ok::<Seq<char>, Seq<char>>(n@),
            Err(e) => resolved_output(
                opt_str_view(override_name),
                opt_str_view(config_pin),
                views(inventory@),
            ) == Err::<Seq<char>, Seq<char>>(e@),
        },
{
    let chosen = match clean(override_name) {
        Some(n) => Some(n),
        None => clean(config_pin),
    };
    assert(views(inventory@).len() == inventory.len());
    if let Some(name) = chosen {
        if inventory.len() == 0 {
            return Err(
                concat3(
                    "cannot resolve Wayland output ",
                    debug_string(name.as_str()).as_str(),
                    ": no outputs discovered (is hyprctl/wf-recorder available?). Set fullscreen_output only when list-outputs shows names.",
                ),
            );
        }
        if contains_string(inventory, name.as_str()) {
            return Ok(name);
        }
        return Err(
            concat5(
                "unknown Wayland output ",
                debug_string(name.as_str()).as_str(),
                "; known: ",
                format_known_outputs(inventory).as_str(),
                ". Use record-ui list-outputs or set fullscreen_output in ~/.config/record-ui/config.toml",
            ),
        );
    }
    if inventory.len() == 0 {
        Err(
            "cannot resolve Wayland output: no outputs discovered (hyprctl monitors / wf-recorder -L). Multi-monitor setups need fullscreen_output in ~/.config/record-ui/config.toml or --output NAME (record-ui list-outputs).".to_owned(),
        )
    } else if inventory.len() == 1 {
        Ok(inventory[0].clone())
    } else {
        Err(
            concat3(
                "multi-monitor: set fullscreen_output in ~/.config/record-ui/config.toml or pass --output NAME (known: ",
                format_known_outputs(inventory).as_str(),
                "). See also: record-ui list-outputs",
            ),
        )
    }
}

/// Only a known output is ever resolved.
pub proof fn resolved_output_is_known(
    requested: Option<Seq<char>>,
    pinned: Option<Seq<char>>,
    inventory: Seq<Seq<char>>,
)
    ensures
        resolved_output(requested, pinned, inventory) matches Ok(n) ==> inventory.contains(n),
{
}

/// The request wins over the configuration.
pub proof fn request_wins_over_pin(
    requested: Option<Seq<char>>,
    pin1: Option<Seq<char>>,
    pin2: Option<Seq<char>>,
    inventory: Seq<Seq<char>>,
)
    requires
        cleaned(requested) is Some,
    ensures
        resolved_output(requested, pin1, inventory) == resolved_output(requested, pin2, inventory),
{
}

/// The frame rate in force: the requested one, else the configured one; zero and
/// none mean automatic.
pub open spec fn resolved_fps(requested: Option<u32>, configured: Option<u32>) -> Option<u32> {
    let chosen = match requested {
        Some(n) => Some(n),
        None => configured,
    };
    if chosen == Some(0u32) {
        None
    } else {
        chosen
    }
}

/// The frame rate in force; `None` is automatic.
pub fn resolve_one_fps(override_fps: Option<u32>, config_fps: Option<u32>) -> (r: Option<u32>)
    ensures
        r == resolved_fps(override_fps, config_fps),
{
    let chosen: Option<u32> = match override_fps {
        Some(n) => Some(n),
        None => config_fps,
    };
    match chosen {
        Some(n) => if n > 0 {
            Some(n)
        } else {
            None
        },
        None => None,
    }
}

/// A resolved rate is never zero.
pub proof fn resolved_fps_is_positive(requested: Option<u32>, configured: Option<u32>)
    ensures
        resolved_fps(requested, configured) matches Some(n) ==> n > 0,
{
}

// ---------------------------------------------------------------------------
// Argv
// ---------------------------------------------------------------------------

/// The argv of `wf-recorder`: a region by its geometry, or an output with an
/// optional rate; then audio, then the file.
pub open spec fn recorder_argv(
    geometry: Option<Seq<char>>,
    audio: bool,
    path: Seq<char>,
    output: Option<Seq<char>>,
    fps: Option<u32>,
) -> Seq<Seq<char>> {
    let area = match geometry {
        Some(g) => seq!["-g"@, g],
        None => (match cleaned(output) {
            Some(o) => seq!["-o"@, o],
            None => Seq::empty(),
        }) + (match fps {
            Some(n) => if n > 0 {
                seq!["-r"@, decimal(n as nat)]
            } else {
                Seq::empty()
            },
            None => Seq::empty(),
        }),
    };
    seq!["wf-recorder"@] + area + (if audio {
        seq!["-a"@]
    } else {
        Seq::empty()
    }) + seq!["-f"@, path]
}

/// Build the argv of `wf-recorder`.
pub fn build_wf_recorder_argv(
    geometry: Option<&str>,
    audio: bool,
    path: &str,
    output: Option<&str>,
    fps: Option<u32>,
) -> (r: Vec<String>)
    ensures
        views(r@) == recorder_argv(
            opt_str_view(geometry),
            audio,
            path@,
            opt_str_view(output),
            fps,
        ),
{
    let mut argv: Vec<String> = Vec::new();
    argv.push("wf-recorder".to_owned());
    match geometry {
        Some(g) => {
            argv.push("-g".to_owned());
            argv.push(g.to_owned());
        },
        None => {
            if let Some(o) = clean(output) {
                argv.push("-o".to_owned());
                argv.push(o);
            }
            if let Some(n) = fps {
                if n > 0 {
                    argv.push("-r".to_owned());
                    argv.push(u64_to_string(n as u64));
                }
            }
        },
    }
    if audio {
        argv.push("-a".to_owned());
    }
    argv.push("-f".to_owned());
    argv.push(path.to_owned());
    assert(views(argv@) =~= recorder_argv(
        opt_str_view(geometry),
        audio,
        path@,
        opt_str_view(output),
        fps,
    ));
    argv
}

/// A region argv names neither an output nor a rate.
pub proof fn region_argv_ignores_output_and_rate(
    geometry: Seq<char>,
    audio: bool,
    path: Seq<char>,
    output: Option<Seq<char>>,
    fps: Option<u32>,
)
    ensures
        recorder_argv(Some(geometry), audio, path, output, fps) == recorder_argv(
            Some(geometry),
            audio,
            path,
            None,
            None,
        ),
{
}

/// The output that was resolved is the one that the argv names, right after the
/// program; there is no geometry.
pub proof fn fullscreen_argv_names_the_output(
    requested: Option<Seq<char>>,
    pinned: Option<Seq<char>>,
    inventory: Seq<Seq<char>>,
    name: Seq<char>,
    audio: bool,
    path: Seq<char>,
    fps: Option<u32>,
)
    requires
        resolved_output(requested, pinned, inventory) == Ok::<Seq<char>, Seq<char>>(name),
        cleaned(Some(name)) == Some(name),
    ensures
        recorder_argv(None, audio, path, Some(name), fps).len() >= 5,
        recorder_argv(None, audio, path, Some(name), fps)[0] == "wf-recorder"@,
        recorder_argv(None, audio, path, Some(name), fps)[1] == "-o"@,
        recorder_argv(None, audio, path, Some(name), fps)[2] == name,
{
}

// ---------------------------------------------------------------------------
// File name
// ---------------------------------------------------------------------------

/// How many names are tried for one stamp.
pub const MAX_CANDIDATES: u64 = 10_000;

/// The `n`-th name tried for a stamp: `rec-STAMP.mp4`, then `rec-STAMP-N.mp4`.
pub open spec fn candidate_path(dir: Seq<char>, stamp: Seq<char>, n: int) -> Seq<char> {
    joined_path(
        dir,
        if n == 0 {
            "rec-"@ + stamp + ".mp4"@
        } else {
            "rec-"@ + stamp + "-"@ + decimal(n as nat) + ".mp4"@
        },
    )
}

/// `path` is the first name tried for `stamp` that is not taken.
pub open spec fn is_first_free(
    path: Seq<char>,
    dir: Seq<char>,
    stamp: Seq<char>,
    taken: Seq<Seq<char>>,
) -> bool {
    exists|n: int|
        {
            &&& 0 <= n < MAX_CANDIDATES
            &&& path == #[trigger] candidate_path(dir, stamp, n)
            &&& !taken.contains(path)
            &&& forall|k: int|
                0 <= k < n ==> taken.contains(#[trigger] candidate_path(dir, stamp, k))
        }
}

/// Every name tried for `stamp` is taken.
pub open spec fn all_taken(dir: Seq<char>, stamp: Seq<char>, taken: Seq<Seq<char>>) -> bool {
    forall|k: int|
        0 <= k < MAX_CANDIDATES ==> taken.contains(#[trigger] candidate_path(dir, stamp, k))
}

/// What allocating a file name gives.
pub open spec fn path_allocation(
    r: Result<String, PortError>,
    dir: Seq<char>,
    now: Timestamp,
    taken: Seq<Seq<char>>,
) -> bool {
    match now.unix_secs() {
        None => r matches Err(PortError::Other(m)) && m@ == before_epoch(),
        Some(secs) => exists|stamp: Seq<char>| #[trigger]
            is_stamp(stamp, secs) && match r {
                Ok(p) => is_first_free(p@, dir, stamp, taken),
                Err(PortError::Io(m)) => m@ == "too many filename collisions"@ && all_taken(
                    dir,
                    stamp,
                    taken,
                ),
                Err(_) => false,
            },
    }
}

proof fn lemma_allocated(
    r: Result<String, PortError>,
    dir: Seq<char>,
    now: Timestamp,
    taken: Seq<Seq<char>>,
    stamp: Seq<char>,
)
    requires
        now.unix_secs() is Some,
        is_stamp(stamp, now.unix_secs()->0),
        r is Ok,
        is_first_free(r->Ok_0@, dir, stamp, taken),
    ensures
        path_allocation(r, dir, now, taken),
{
}

pub(crate) fn candidate(dir: &str, stamp: &str, n: u64) -> (r: String)
    ensures
        r@ == candidate_path(dir@, stamp@, n as int),
{
    if n == 0 {
        join_path(dir, concat3("rec-", stamp, ".mp4").as_str())
    } else {
        join_path(
            dir,
            concat5("rec-", stamp, "-", u64_to_string(n).as_str(), ".mp4").as_str(),
        )
    }
}

/// A file name in `output_dir` for a recording that starts at `now`, other than
/// the names in `taken`.
pub fn unique_output_path(output_dir: &str, now: Timestamp, taken: &Vec<String>) -> (r: Result<
    String,
    PortError,
>)
    ensures
        path_allocation(r, output_dir@, now, views(taken@)),
{
    let stamp = match format_timestamp(now) {
        Ok(s) => s,
        Err(e) => {
            return Err(e);
        },
    };
    let ghost secs = now.unix_secs()->0;
    let mut n: u64 = 0;
    while n < MAX_CANDIDATES
        invariant
            n <= MAX_CANDIDATES,
            now.unix_secs() == Some(secs),
            is_stamp(stamp@, secs),
            forall|k: int|
                0 <= k < n ==> views(taken@).contains(
                    #[trigger] candidate_path(output_dir@, stamp@, k),
                ),
        decreases MAX_CANDIDATES - n,
    {
        let p = candidate(output_dir, stamp.as_str(), n);
        if !contains_string(taken, p.as_str()) {
            assert(is_first_free(p@, output_dir@, stamp@, views(taken@)));
            let r: Result<String, PortError> = Ok(p);
            proof {
                lemma_allocated(r, output_dir@, now, views(taken@), stamp@);
            }
            return r;
        }
        n = n + 1;
    }
    assert(all_taken(output_dir@, stamp@, views(taken@)));
    Err(PortError::Io("too many filename collisions".to_owned()))
}

/// A new recording never takes the name of a file that is there.
pub proof fn allocated_path_is_free(
    p: String,
    dir: Seq<char>,
    now: Timestamp,
    taken: Seq<Seq<char>>,
)
    requires
        path_allocation(Ok(p), dir, now, taken),
    ensures
        !taken.contains(p@),
        is_absolute_path(dir) ==> is_absolute_path(p@),
{
    let secs = now.unix_secs()->0;
    let stamp = choose|stamp: Seq<char>| #[trigger]
        is_stamp(stamp, secs) && is_first_free(p@, dir, stamp, taken);
    assert("rec-"@.len() > 0 && "rec-"@[0] == 'r') by {
        reveal_strlit("rec-");
    }
    let n = choose|n: int|
        0 <= n < MAX_CANDIDATES && p@ == #[trigger] candidate_path(dir, stamp, n);
}

// ---------------------------------------------------------------------------
// Messages
// ---------------------------------------------------------------------------

/// A message with the child's stderr behind it, where there is any.
pub open spec fn with_stderr(msg: Seq<char>, stderr: Seq<char>) -> Seq<char> {
    if stderr.len() == 0 {
        msg
    } else {
        msg + "; stderr: "@ + stderr
    }
}

/// Add the child's stderr to a message, where there is any.
pub fn append_stderr(msg: &mut String, stderr: &str)
    ensures
        final(msg)@ == with_stderr(old(msg)@, stderr@),
{
    if !stderr.is_empty() {
        msg.append("; stderr: ");
        msg.append(stderr);
    }
}

} // verus!
