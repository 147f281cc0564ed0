//! Laws of a recording's output: which output is captured, how the recorder is told,
//! and what the files are called.

use vstd::prelude::*;
use vstd::string::*;

use crate::audio_laws::{ends_in, says_something};
use crate::calendar::{day_number, is_civil_time, is_date, is_stamp};
use crate::compose_laws::given;
use crate::dual::{
    both_allocation, is_first_free_try, is_free_try, temp_path, BothFiles,
};
use crate::output::{
    candidate_path, debug_text, is_first_free, path_allocation, recorder_argv, resolved_fps,
    resolved_output, with_stderr, MAX_CANDIDATES,
};
use crate::ports::Timestamp;
use crate::text::{decimal, trim_of};

verus! {

// ---------------------------------------------------------------------------
// Output and frame rate
// ---------------------------------------------------------------------------

/// `s` begins with `head`.
pub open spec fn starts_in(s: Seq<char>, head: Seq<char>) -> bool {
    head.len() <= s.len() && s.take(head.len() as int) == head
}

/// `s` has `part` somewhere.
pub open spec fn has_part(s: Seq<char>, part: Seq<char>) -> bool {
    exists|a: Seq<char>, b: Seq<char>| s == #[trigger] (a + part + b)
}

/// The output captured is the one that the request names, else the one that the
/// configuration names, if there is such an output; else the only one that there
/// is.
pub proof fn the_output_named_is_captured(
    requested: Option<Seq<char>>,
    pinned: Option<Seq<char>>,
    inventory: Seq<Seq<char>>,
)
    ensures
        says_something(requested) && inventory.contains(trim_of(requested->0)) ==> resolved_output(
            requested,
            pinned,
            inventory,
        ) == Ok::<Seq<char>, Seq<char>>(trim_of(requested->0)),
        says_something(requested) && !inventory.contains(trim_of(requested->0))
            ==> resolved_output(requested, pinned, inventory) is Err,
        !says_something(requested) && says_something(pinned) && inventory.contains(
            trim_of(pinned->0),
        ) ==> resolved_output(requested, pinned, inventory) == Ok::<Seq<char>, Seq<char>>(
            trim_of(pinned->0),
        ),
        !says_something(requested) && says_something(pinned) && !inventory.contains(
            trim_of(pinned->0),
        ) ==> resolved_output(requested, pinned, inventory) is Err,
        !says_something(requested) && !says_something(pinned) && inventory.len() == 1
            ==> resolved_output(requested, pinned, inventory) == Ok::<Seq<char>, Seq<char>>(
            inventory[0],
        ),
        !says_something(requested) && !says_something(pinned) && inventory.len() != 1
            ==> resolved_output(requested, pinned, inventory) is Err,
{
}

/// An output that is named and cannot be captured is named in the refusal, and so
/// are those that could be.
pub proof fn a_refusal_names_the_output(
    requested: Option<Seq<char>>,
    pinned: Option<Seq<char>>,
    inventory: Seq<Seq<char>>,
    e: Seq<char>,
)
    requires
        resolved_output(requested, pinned, inventory) == Err::<Seq<char>, Seq<char>>(e),
    ensures
        says_something(requested) ==> has_part(e, debug_text(trim_of(requested->0))),
        !says_something(requested) && says_something(pinned) ==> has_part(
            e,
            debug_text(trim_of(pinned->0)),
        ),
        forall|k: int| 0 <= k < inventory.len() ==> has_part(e, #[trigger] inventory[k]),
{
    let name = if says_something(requested) {
        trim_of(requested->0)
    } else {
        trim_of(pinned->0)
    };
    let known = crate::text::joined(inventory, ", "@);
    if says_something(requested) || says_something(pinned) {
        if inventory.len() == 0 {
            let a = "cannot resolve Wayland output "@;
            let b =
                ": no outputs discovered (is hyprctl/wf-recorder available?). Set fullscreen_output only when list-outputs shows names."@;
            assert(e == a + debug_text(name) + b);
        } else {
            let a = "unknown Wayland output "@;
            let b = "; known: "@;
            let c =
                ". Use record-ui list-outputs or set fullscreen_output in ~/.config/record-ui/config.toml"@;
            assert(e == a + debug_text(name) + (b + known + c));
            assert(e == (a + debug_text(name) + b) + known + c);
            assert forall|k: int| 0 <= k < inventory.len() implies has_part(
                e,
                #[trigger] inventory[k],
            ) by {
                lemma_joined_has(inventory, ", "@, k);
                lemma_part_of_part(e, known, inventory[k]);
            }
        }
    } else if inventory.len() > 1 {
        let a =
            "multi-monitor: set fullscreen_output in ~/.config/record-ui/config.toml or pass --output NAME (known: "@;
        let c = "). See also: record-ui list-outputs"@;
        assert(e == a + known + c);
        assert forall|k: int| 0 <= k < inventory.len() implies has_part(
            e,
            #[trigger] inventory[k],
        ) by {
            lemma_joined_has(inventory, ", "@, k);
            lemma_part_of_part(e, known, inventory[k]);
        }
    }
}

/// A part of a part is a part.
pub proof fn lemma_part_of_part(s: Seq<char>, part: Seq<char>, inner: Seq<char>)
    requires
        has_part(s, part),
        has_part(part, inner),
    ensures
        has_part(s, inner),
{
    let (a, b) = choose|a: Seq<char>, b: Seq<char>| s == #[trigger] (a + part + b);
    let (c, d) = choose|c: Seq<char>, d: Seq<char>| part == #[trigger] (c + inner + d);
    assert(s =~= (a + c) + inner + (d + b));
}

/// Each of the parts that are joined is in what comes out.
pub proof fn lemma_joined_has(parts: Seq<Seq<char>>, sep: Seq<char>, k: int)
    requires
        0 <= k < parts.len(),
    ensures
        has_part(crate::text::joined(parts, sep), parts[k]),
    decreases parts.len(),
{
    let none = Seq::<char>::empty();
    let all = crate::text::joined(parts, sep);
    if parts.len() == 1 {
        assert(all =~= none + parts[0] + none);
    } else if k == parts.len() - 1 {
        assert(all =~= (crate::text::joined(parts.drop_last(), sep) + sep) + parts[k] + none);
    } else {
        let rest = parts.drop_last();
        lemma_joined_has(rest, sep, k);
        assert(rest[k] == parts[k]);
        assert(all =~= none + crate::text::joined(rest, sep) + (sep + parts.last()));
        lemma_part_of_part(all, crate::text::joined(rest, sep), parts[k]);
    }
}

/// The frame rate of the request is in force, zero being automatic; without one
/// that of the configuration is.
pub proof fn the_rate_asked_for_is_in_force(requested: Option<u32>, configured: Option<u32>)
    ensures
        requested is Some && requested->0 > 0 ==> resolved_fps(requested, configured) == requested,
        requested == Some(0u32) ==> resolved_fps(requested, configured) is None,
        requested is None && configured is Some && configured->0 > 0 ==> resolved_fps(
            requested,
            configured,
        ) == configured,
        requested is None && (configured is None || configured->0 == 0) ==> resolved_fps(
            requested,
            configured,
        ) is None,
{
}

/// The recorder is told what to capture and where to write: a region by its
/// geometry alone, else the output and the rate where they are known; audio exactly
/// if asked for; the file at the end.
pub proof fn the_recorder_is_told_what_to_record(
    geometry: Option<Seq<char>>,
    audio: bool,
    path: Seq<char>,
    output: Option<Seq<char>>,
    fps: Option<u32>,
)
    ensures
        ({
            let argv = recorder_argv(geometry, audio, path, output, fps);
            let whole = geometry is None;
            let places = whole && says_something(output);
            let rates = whole && fps is Some && fps->0 > 0;
            &&& argv[0] == "wf-recorder"@
            &&& argv[argv.len() - 2] == "-f"@ && argv.last() == path
            &&& geometry is Some ==> given(argv, "-g"@, geometry->0)
            &&& places ==> given(argv, "-o"@, trim_of(output->0))
            &&& rates ==> given(argv, "-r"@, decimal(fps->0 as nat))
            &&& audio ==> argv[argv.len() - 3] == "-a"@
            &&& argv.len() == 3 + (if geometry is Some || places {
                2int
            } else {
                0
            }) + (if rates {
                2int
            } else {
                0
            }) + (if audio {
                1int
            } else {
                0
            })
        }),
{
    let argv = recorder_argv(geometry, audio, path, output, fps);
    if geometry is Some {
        assert(argv[1] == "-g"@);
    } else {
        if says_something(output) {
            assert(argv[1] == "-o"@);
            if fps is Some && fps->0 > 0 {
                assert(argv[3] == "-r"@);
            }
        } else if fps is Some && fps->0 > 0 {
            assert(argv[1] == "-r"@);
        }
    }
}

// ---------------------------------------------------------------------------
// Files
// ---------------------------------------------------------------------------

/// `path` is `name` in the directory `dir`.
pub open spec fn lies_in(path: Seq<char>, dir: Seq<char>, name: Seq<char>) -> bool {
    if dir.len() == 0 || dir.last() == '/' {
        path == dir + name
    } else {
        path == dir + seq!['/'] + name
    }
}

/// What stands behind the stamp in a name: nothing at the first try, then a number.
pub open spec fn try_text(n: int) -> Seq<char> {
    if n == 0 {
        Seq::empty()
    } else {
        seq!['-'] + decimal(n as nat)
    }
}

/// A recording lies in the directory asked for and is called by the time at which
/// it starts, with the lowest number behind it that makes the name a new one.
pub proof fn a_recording_is_called_by_its_time(
    p: String,
    dir: Seq<char>,
    now: Timestamp,
    taken: Seq<Seq<char>>,
) -> (found: (Seq<char>, int))
    requires
        path_allocation(Ok(p), dir, now, taken),
    ensures
        now.unix_secs() is Some,
        is_stamp(found.0, now.unix_secs()->0),
        0 <= found.1 < 10_000,
        lies_in(p@, dir, "rec-"@ + found.0 + try_text(found.1) + ".mp4"@),
        !taken.contains(p@),
        forall|k: int, other: Seq<char>|
            0 <= k < found.1 && #[trigger] lies_in(
                other,
                dir,
                "rec-"@ + found.0 + #[trigger] try_text(k) + ".mp4"@,
            ) ==> taken.contains(other),
{
    let secs = now.unix_secs()->0;
    let stamp = choose|stamp: Seq<char>| #[trigger]
        is_stamp(stamp, secs) && is_first_free(p@, dir, stamp, taken);
    let n = choose|n: int|
        {
            &&& 0 <= n < MAX_CANDIDATES
            &&& p@ == #[trigger] candidate_path(dir, stamp, n)
            &&& !taken.contains(p@)
            &&& forall|k: int|
                0 <= k < n ==> taken.contains(#[trigger] candidate_path(dir, stamp, k))
        };
    lemma_candidate(dir, stamp, n);
    assert forall|k: int, other: Seq<char>|
        0 <= k < n && #[trigger] lies_in(
            other,
            dir,
            "rec-"@ + stamp + #[trigger] try_text(k) + ".mp4"@,
        ) implies taken.contains(other) by {
        lemma_candidate(dir, stamp, k);
        assert(other == candidate_path(dir, stamp, k));
    }
    (stamp, n)
}

proof fn lemma_candidate(dir: Seq<char>, stamp: Seq<char>, n: int)
    ensures
        lies_in(
            candidate_path(dir, stamp, n),
            dir,
            "rec-"@ + stamp + try_text(n) + ".mp4"@,
        ),
{
    reveal_strlit("rec-");
    reveal_strlit("-");
    assert("-"@ =~= seq!['-']);
    let name = "rec-"@ + stamp + try_text(n) + ".mp4"@;
    assert("rec-"@[0] == 'r');
    if n == 0 {
        assert(name =~= "rec-"@ + stamp + ".mp4"@);
    } else {
        assert(name =~= "rec-"@ + stamp + "-"@ + decimal(n as nat) + ".mp4"@);
    }
    assert(name[0] == 'r');
}

proof fn lemma_temp(dir: Seq<char>, stamp: Seq<char>, n: int, tail: Seq<char>)
    ensures
        lies_in(
            temp_path(dir, stamp, n, tail),
            dir,
            ".record-ui-both-"@ + stamp + try_text(n) + tail,
        ),
{
    reveal_strlit(".record-ui-both-");
    reveal_strlit("-");
    assert("-"@ =~= seq!['-']);
    let name = ".record-ui-both-"@ + stamp + try_text(n) + tail;
    assert(".record-ui-both-"@[0] == '.');
    if n == 0 {
        assert(name =~= ".record-ui-both-"@ + stamp + tail);
    } else {
        assert(name =~= ".record-ui-both-"@ + stamp + "-"@ + decimal(n as nat) + tail);
    }
    assert(name[0] == '.');
}

/// The files of two monitors lie in the directory asked for, share their time and
/// their number, and are three different ones: the video that is kept, and a hidden
/// recording of each monitor.
pub proof fn the_files_of_both_belong_together(
    f: BothFiles,
    dir: Seq<char>,
    now: Timestamp,
    taken: Seq<Seq<char>>,
) -> (found: (Seq<char>, int))
    requires
        both_allocation(Ok(f), dir, now, taken),
    ensures
        now.unix_secs() is Some,
        is_stamp(found.0, now.unix_secs()->0),
        0 <= found.1 < 10_000,
        lies_in(f.path@, dir, "rec-"@ + found.0 + try_text(found.1) + ".mp4"@),
        lies_in(f.a@, dir, ".record-ui-both-"@ + found.0 + try_text(found.1) + "-A.mkv"@),
        lies_in(f.b@, dir, ".record-ui-both-"@ + found.0 + try_text(found.1) + "-B.mkv"@),
        f.a@ != f.b@,
        f.a@ != f.path@,
        f.b@ != f.path@,
{
    let secs = now.unix_secs()->0;
    let stamp = choose|stamp: Seq<char>| #[trigger]
        is_stamp(stamp, secs) && is_first_free_try(f, dir, stamp, taken);
    let n = choose|n: int|
        {
            &&& 0 <= n < MAX_CANDIDATES
            &&& #[trigger] is_free_try(dir, stamp, n, taken)
            &&& f.path@ == candidate_path(dir, stamp, n)
            &&& f.a@ == temp_path(dir, stamp, n, "-A.mkv"@)
            &&& f.b@ == temp_path(dir, stamp, n, "-B.mkv"@)
            &&& forall|k: int| 0 <= k < n ==> !#[trigger] is_free_try(dir, stamp, k, taken)
        };
    lemma_candidate(dir, stamp, n);
    lemma_temp(dir, stamp, n, "-A.mkv"@);
    lemma_temp(dir, stamp, n, "-B.mkv"@);
    reveal_strlit("-A.mkv");
    reveal_strlit("-B.mkv");
    reveal_strlit(".mp4");
    assert(f.a@[f.a@.len() - 5] == "-A.mkv"@[1]);
    assert(f.b@[f.b@.len() - 5] == "-B.mkv"@[1]);
    assert(f.a@[f.a@.len() - 2] == "-A.mkv"@[4]);
    assert(f.b@[f.b@.len() - 2] == "-B.mkv"@[4]);
    assert(f.path@[f.path@.len() - 2] == ".mp4"@[2]);
    (stamp, n)
}

/// The date and time in a stamp are those of its second: a day of the calendar, and
/// hours, minutes and seconds that count up to it.
pub proof fn a_stamp_counts_the_seconds(t: (i32, u32, u32, u32, u32, u32), secs: int)
    requires
        is_civil_time(t, secs),
    ensures
        t.3 < 24 && t.4 < 60 && t.5 < 60,
        exists|year: int|
            {
                &&& t.0 == year as i32
                &&& is_date(year, t.1 as int, t.2 as int)
                &&& secs == #[trigger] day_number(year, t.1 as int, t.2 as int) * 86_400 + t.3
                    * 3600 + t.4 * 60 + t.5
            },
{
    let year = choose|year: int|
        {
            &&& t.0 == year as i32
            &&& is_date(year, t.1 as int, t.2 as int)
            &&& #[trigger] day_number(year, t.1 as int, t.2 as int) == secs / 86_400
        };
    assert(secs == (secs / 86_400) * 86_400 + (secs / 3600 % 24) * 3600 + (secs / 60 % 60) * 60
        + secs % 60);
    assert(secs == day_number(year, t.1 as int, t.2 as int) * 86_400 + t.3 * 3600 + t.4 * 60
        + t.5);
}

/// What the child said stands behind the message, and the message is kept.
pub proof fn stderr_stands_behind_the_message(msg: Seq<char>, stderr: Seq<char>)
    ensures
        starts_in(with_stderr(msg, stderr), msg),
        ends_in(with_stderr(msg, stderr), stderr),
        stderr.len() == 0 ==> with_stderr(msg, stderr) == msg,
{
    let all = with_stderr(msg, stderr);
    assert(all.take(msg.len() as int) =~= msg);
    assert(all.skip(all.len() - stderr.len()) =~= stderr);
}

} // verus!
