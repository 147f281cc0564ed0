//! Two monitors in one video: their layout, the programs that record and compose
//! them, and handling two recorders as one.

use vstd::prelude::*;
use vstd::string::*;

use crate::calendar::{before_epoch, format_timestamp, is_stamp};
use crate::output::{candidate, candidate_path, MAX_CANDIDATES};
use crate::outputs::{names_of, output_names, output_views, OutputInfo, OutputView};
use crate::path::{join_path, joined_path};
use crate::ports::{
    Clipboard, Clock, CommandSpawner, ExitStatus, Notifier, PortError, Signal, Timestamp,
};
use crate::reap::{killed_run, recorder_run};
use crate::text::{
    concat2, concat3, concat4, contains_string, decimal, decimal_int, i64_to_string, join, joined,
    u64_to_string, views,
};
use crate::trace::{added, grown, lemma_added, lemma_grown, Child, PortCall, Ports};

verus! {

// ---------------------------------------------------------------------------
// Layout
// ---------------------------------------------------------------------------

/// A monitor and where it stands, in the compositor's coordinates.
#[derive(Debug, PartialEq, Eq)]
pub struct Head {
    pub name: String,
    pub x: i32,
    pub y: i32,
    pub width: i32,
    pub height: i32,
}

/// What a [`Head`] says.
#[verifier::ext_equal]
pub struct HeadView {
    pub name: Seq<char>,
    pub x: int,
    pub y: int,
    pub width: int,
    pub height: int,
}

impl View for Head {
    type V = HeadView;

    open spec fn view(&self) -> HeadView {
        HeadView {
            name: self.name@,
            x: self.x as int,
            y: self.y as int,
            width: self.width as int,
            height: self.height as int,
        }
    }
}

/// Two monitors; the primary one stands further left, or above.
#[derive(Debug, PartialEq, Eq)]
pub struct Layout {
    pub primary: Head,
    pub secondary: Head,
}

/// What a [`Layout`] says.
#[verifier::ext_equal]
pub struct LayoutView {
    pub primary: HeadView,
    pub secondary: HeadView,
}

impl View for Layout {
    type V = LayoutView;

    open spec fn view(&self) -> LayoutView {
        LayoutView { primary: self.primary@, secondary: self.secondary@ }
    }
}

/// The monitor that an output with a known layout is.
pub open spec fn head_of(o: OutputView) -> HeadView {
    HeadView {
        name: o.name,
        x: o.x->0 as int,
        y: o.y->0 as int,
        width: o.width->0 as int,
        height: o.height->0 as int,
    }
}

/// `a` stands further left than `b`, or above it; of two in one place the first
/// counts.
pub open spec fn stands_first(a: HeadView, b: HeadView) -> bool {
    a.x < b.x || (a.x == b.x && a.y <= b.y)
}

/// The message when there are not exactly two monitors.
pub open spec fn not_two(names: Seq<Seq<char>>) -> Seq<char> {
    "both requires exactly two monitors (known: "@ + (if names.len() == 0 {
        "none"@
    } else {
        joined(names, ", "@)
    }) + ")"@
}

/// The message when it is not known where the monitors stand.
pub open spec fn no_positions() -> Seq<char> {
    "both needs monitor positions; use Hyprland (hyprctl monitors -j)"@
}

/// The layout of two monitors, where it is known.
pub open spec fn layout_of(outputs: Seq<OutputView>) -> Option<LayoutView> {
    if !outputs[0].has_layout() || !outputs[1].has_layout() {
        None
    } else {
        let a = head_of(outputs[0]);
        let b = head_of(outputs[1]);
        if stands_first(a, b) {
            Some(LayoutView { primary: a, secondary: b })
        } else {
            Some(LayoutView { primary: b, secondary: a })
        }
    }
}

fn head(o: &OutputInfo) -> (r: Option<Head>)
    ensures
        match r {
            Some(h) => o@.has_layout() && h@ == head_of(o@),
            None => !o@.has_layout(),
        },
{
    match (o.x, o.y, o.width, o.height) {
        (Some(x), Some(y), Some(width), Some(height)) => if width > 0 && height > 0 {
            Some(Head { name: o.name.clone(), x, y, width, height })
        } else {
            None
        },
        _ => None,
    }
}

/// The layout of two monitors, where it is known.
pub fn choose_layout(outputs: &Vec<OutputInfo>) -> (r: Option<Layout>)
    requires
        outputs@.len() == 2,
    ensures
        match r {
            Some(l) => layout_of(output_views(outputs@)) == Some(l@),
            None => layout_of(output_views(outputs@)) is None,
        },
{
    assert(output_views(outputs@)[0] == outputs@[0]@);
    assert(output_views(outputs@)[1] == outputs@[1]@);
    let a = match head(&outputs[0]) {
        Some(h) => h,
        None => {
            return None;
        },
    };
    let b = match head(&outputs[1]) {
        Some(h) => h,
        None => {
            return None;
        },
    };
    if a.x < b.x || (a.x == b.x && a.y <= b.y) {
        Some(Layout { primary: a, secondary: b })
    } else {
        Some(Layout { primary: b, secondary: a })
    }
}

/// The message when there are not exactly two monitors.
pub fn not_two_message(outputs: &Vec<OutputInfo>) -> (r: String)
    ensures
        r@ == not_two(names_of(output_views(outputs@))),
{
    let names = output_names(outputs);
    let known = if names.len() == 0 {
        "none".to_owned()
    } else {
        join(&names, ", ")
    };
    concat3("both requires exactly two monitors (known: ", known.as_str(), ")")
}

impl LayoutView {
    /// The left edge of the canvas.
    pub open spec fn left(self) -> int {
        least(self.primary.x, self.secondary.x)
    }

    /// The upper edge of the canvas.
    pub open spec fn top(self) -> int {
        least(self.primary.y, self.secondary.y)
    }

    /// The right edge of the canvas.
    pub open spec fn right(self) -> int {
        most(
            self.primary.x + self.primary.width,
            self.secondary.x + self.secondary.width,
        )
    }

    /// The lower edge of the canvas.
    pub open spec fn bottom(self) -> int {
        most(
            self.primary.y + self.primary.height,
            self.secondary.y + self.secondary.height,
        )
    }

    /// What is being captured.
    pub open spec fn label(self) -> Seq<char> {
        self.primary.name + "+"@ + self.secondary.name
    }
}

/// The lesser of two numbers.
pub open spec fn least(a: int, b: int) -> int {
    if a <= b {
        a
    } else {
        b
    }
}

/// The greater of two numbers.
pub open spec fn most(a: int, b: int) -> int {
    if a >= b {
        a
    } else {
        b
    }
}

/// Both monitors lie on the canvas, the primary one at its left edge.
pub proof fn heads_lie_on_the_canvas(outputs: Seq<OutputView>)
    requires
        outputs.len() == 2,
        layout_of(outputs) is Some,
    ensures
        ({
            let l = layout_of(outputs)->0;
            &&& l.left() == l.primary.x
            &&& l.left() <= l.secondary.x
            &&& l.top() <= l.primary.y
            &&& l.top() <= l.secondary.y
            &&& l.primary.x + l.primary.width <= l.right()
            &&& l.secondary.x + l.secondary.width <= l.right()
            &&& l.primary.y + l.primary.height <= l.bottom()
            &&& l.secondary.y + l.secondary.height <= l.bottom()
        }),
{
}

/// No smaller canvas holds both monitors.
pub proof fn canvas_is_smallest(l: LayoutView, left: int, top: int, right: int, bottom: int)
    requires
        left <= l.primary.x,
        left <= l.secondary.x,
        top <= l.primary.y,
        top <= l.secondary.y,
        l.primary.x + l.primary.width <= right,
        l.secondary.x + l.secondary.width <= right,
        l.primary.y + l.primary.height <= bottom,
        l.secondary.y + l.secondary.height <= bottom,
    ensures
        left <= l.left(),
        top <= l.top(),
        l.right() <= right,
        l.bottom() <= bottom,
{
}

// ---------------------------------------------------------------------------
// Argv
// ---------------------------------------------------------------------------

/// The argv of one of two recorders: 60 frames, every frame, audio if asked for.
pub open spec fn both_argv(name: Seq<char>, audio: bool, path: Seq<char>) -> Seq<Seq<char>> {
    seq!["wf-recorder"@, "-o"@, name, "-r"@, "60"@, "-D"@] + (if audio {
        seq!["-a"@]
    } else {
        Seq::empty()
    }) + seq!["-f"@, path]
}

/// Build the argv of one of two recorders.
pub fn build_both_argv(name: &str, audio: bool, path: &str) -> (r: Vec<String>)
    ensures
        views(r@) == both_argv(name@, audio, path@),
{
    let mut argv: Vec<String> = Vec::new();
    argv.push("wf-recorder".to_owned());
    argv.push("-o".to_owned());
    argv.push(name.to_owned());
    argv.push("-r".to_owned());
    argv.push("60".to_owned());
    argv.push("-D".to_owned());
    if audio {
        argv.push("-a".to_owned());
    }
    argv.push("-f".to_owned());
    argv.push(path.to_owned());
    assert(views(argv@) =~= both_argv(name@, audio, path@));
    argv
}

/// Two numbers with a colon between them.
pub open spec fn number_pair(a: int, b: int) -> Seq<char> {
    decimal_int(a) + ":"@ + decimal_int(b)
}

fn pair_text(a: i64, b: i64) -> (r: String)
    ensures
        r@ == number_pair(a as int, b as int),
{
    concat3(i64_to_string(a).as_str(), ":", i64_to_string(b).as_str())
}

/// The filter that composes two videos as their monitors stand, on black: the
/// first is put in its place on the canvas, the second laid over it in its own.
/// Where the second ends first its place turns black.
pub open spec fn compose_filter(l: LayoutView) -> Seq<char> {
    "[0:v]scale="@ + number_pair(l.primary.width, l.primary.height) + ",pad="@ + number_pair(
        l.right() - l.left(),
        l.bottom() - l.top(),
    ) + ":"@ + number_pair(l.primary.x - l.left(), l.primary.y - l.top())
        + ":black[base];[1:v]scale="@ + number_pair(l.secondary.width, l.secondary.height)
        + "[over];[base][over]overlay="@ + number_pair(
        l.secondary.x - l.left(),
        l.secondary.y - l.top(),
    ) + ":eof_action=pass[v]"@
}

fn lesser(a: i64, b: i64) -> (r: i64)
    ensures
        r == least(a as int, b as int),
{
    if a <= b {
        a
    } else {
        b
    }
}

fn greater(a: i64, b: i64) -> (r: i64)
    ensures
        r == most(a as int, b as int),
{
    if a >= b {
        a
    } else {
        b
    }
}

/// The filter that composes two videos as their monitors stand.
pub fn build_compose_filter(l: &Layout) -> (r: String)
    ensures
        r@ == compose_filter(l@),
{
    let p = &l.primary;
    let s = &l.secondary;
    let left: i64 = lesser(p.x as i64, s.x as i64);
    let top: i64 = lesser(p.y as i64, s.y as i64);
    let right: i64 = greater(p.x as i64 + p.width as i64, s.x as i64 + s.width as i64);
    let bottom: i64 = greater(p.y as i64 + p.height as i64, s.y as i64 + s.height as i64);
    let mut f = concat4(
        "[0:v]scale=",
        pair_text(p.width as i64, p.height as i64).as_str(),
        ",pad=",
        pair_text(right - left, bottom - top).as_str(),
    );
    f.append(":");
    f.append(pair_text(p.x as i64 - left, p.y as i64 - top).as_str());
    f.append(":black[base];[1:v]scale=");
    f.append(pair_text(s.width as i64, s.height as i64).as_str());
    f.append("[over];[base][over]overlay=");
    f.append(pair_text(s.x as i64 - left, s.y as i64 - top).as_str());
    f.append(":eof_action=pass[v]");
    f
}

/// The argv that composes two recordings into the file `path`, with the audio of
/// the first if there is any.
pub open spec fn compose_argv(
    l: LayoutView,
    audio: bool,
    a: Seq<char>,
    b: Seq<char>,
    path: Seq<char>,
) -> Seq<Seq<char>> {
    seq![
        "ffmpeg"@,
        "-nostdin"@,
        "-loglevel"@,
        "error"@,
        "-y"@,
        "-i"@,
        a,
        "-i"@,
        b,
        "-filter_complex"@,
        compose_filter(l),
        "-map"@,
        "[v]"@,
    ] + (if audio {
        seq!["-map"@, "0:a"@]
    } else {
        Seq::empty()
    }) + seq![path]
}

/// Build the argv that composes two recordings.
pub fn build_compose_argv(l: &Layout, audio: bool, a: &str, b: &str, path: &str) -> (r: Vec<String>)
    ensures
        views(r@) == compose_argv(l@, audio, a@, b@, path@),
{
    let mut argv: Vec<String> = Vec::new();
    argv.push("ffmpeg".to_owned());
    argv.push("-nostdin".to_owned());
    argv.push("-loglevel".to_owned());
    argv.push("error".to_owned());
    argv.push("-y".to_owned());
    argv.push("-i".to_owned());
    argv.push(a.to_owned());
    argv.push("-i".to_owned());
    argv.push(b.to_owned());
    argv.push("-filter_complex".to_owned());
    argv.push(build_compose_filter(l));
    argv.push("-map".to_owned());
    argv.push("[v]".to_owned());
    if audio {
        argv.push("-map".to_owned());
        argv.push("0:a".to_owned());
    }
    argv.push(path.to_owned());
    assert(views(argv@) =~= compose_argv(l@, audio, a@, b@, path@));
    argv
}

// ---------------------------------------------------------------------------
// File names
// ---------------------------------------------------------------------------

/// The files of a recording of two monitors.
#[derive(Debug, PartialEq, Eq)]
pub struct BothFiles {
    /// The recording of the primary monitor.
    pub a: String,
    /// The recording of the other one.
    pub b: String,
    /// The video that is composed of them.
    pub path: String,
}

/// The name of one of the two recordings, for a stamp and the number of a try.
pub open spec fn temp_path(dir: Seq<char>, stamp: Seq<char>, n: int, tail: Seq<char>) -> Seq<char> {
    joined_path(
        dir,
        if n == 0 {
            ".record-ui-both-"@ + stamp + tail
        } else {
            ".record-ui-both-"@ + stamp + "-"@ + decimal(n as nat) + tail
        },
    )
}

/// All three names of the `n`-th try are free.
pub open spec fn is_free_try(
    dir: Seq<char>,
    stamp: Seq<char>,
    n: int,
    taken: Seq<Seq<char>>,
) -> bool {
    &&& !taken.contains(candidate_path(dir, stamp, n))
    &&& !taken.contains(temp_path(dir, stamp, n, "-A.mkv"@))
    &&& !taken.contains(temp_path(dir, stamp, n, "-B.mkv"@))
}

/// What allocating the names gives: those of the first try whose names are free.
pub open spec fn both_allocation(
    r: Result<BothFiles, PortError>,
    dir: Seq<char>,
    now: Timestamp,
    taken: Seq<Seq<char>>,
) -> bool {
    match now.unix_secs() {
        None => r matches Err(PortError::Other(m)) && m@ == before_epoch(),
        Some(secs) => exists|stamp: Seq<char>| #[trigger]
            is_stamp(stamp, secs) && match r {
                Ok(f) => is_first_free_try(f, dir, stamp, taken),
                Err(PortError::Io(m)) => m@ == "too many filename collisions"@ && (forall|k: int|
                    0 <= k < MAX_CANDIDATES ==> !#[trigger] is_free_try(dir, stamp, k, taken)),
                Err(_) => false,
            },
    }
}

/// The names are those of the first try whose names are free.
pub open spec fn is_first_free_try(
    f: BothFiles,
    dir: Seq<char>,
    stamp: Seq<char>,
    taken: Seq<Seq<char>>,
) -> bool {
    exists|n: int|
        {
            &&& 0 <= n < MAX_CANDIDATES
            &&& #[trigger] is_free_try(dir, stamp, n, taken)
            &&& f.path@ == candidate_path(dir, stamp, n)
            &&& f.a@ == temp_path(dir, stamp, n, "-A.mkv"@)
            &&& f.b@ == temp_path(dir, stamp, n, "-B.mkv"@)
            &&& forall|k: int| 0 <= k < n ==> !#[trigger] is_free_try(dir, stamp, k, taken)
        }
}

/// New recordings never take the name of a file that is there.
pub proof fn both_files_are_free(
    f: BothFiles,
    dir: Seq<char>,
    now: Timestamp,
    taken: Seq<Seq<char>>,
)
    requires
        both_allocation(Ok(f), dir, now, taken),
    ensures
        !taken.contains(f.path@),
        !taken.contains(f.a@),
        !taken.contains(f.b@),
{
}

fn temp_name(dir: &str, stamp: &str, n: u64, tail: &str) -> (r: String)
    ensures
        r@ == temp_path(dir@, stamp@, n as int, tail@),
{
    let mut s = concat2(".record-ui-both-", stamp);
    if n > 0 {
        s.append("-");
        s.append(u64_to_string(n).as_str());
    }
    s.append(tail);
    join_path(dir, s.as_str())
}

proof fn lemma_both_allocated(
    r: Result<BothFiles, PortError>,
    dir: Seq<char>,
    now: Timestamp,
    taken: Seq<Seq<char>>,
    stamp: Seq<char>,
)
    requires
        now.unix_secs() is Some,
        is_stamp(stamp, now.unix_secs()->0),
        r is Ok,
        is_first_free_try(r->Ok_0, dir, stamp, taken),
    ensures
        both_allocation(r, dir, now, taken),
{
}

/// File names in `output_dir` for a recording of two monitors that starts at
/// `now`, other than the names in `taken`.
pub fn unique_both_files(output_dir: &str, now: Timestamp, taken: &Vec<String>) -> (r: Result<
    BothFiles,
    PortError,
>)
    ensures
        both_allocation(r, output_dir@, now, views(taken@)),
{
    let stamp = match format_timestamp(now) {
        Ok(s) => s,
        Err(e) => {
            return Err(e);
        },
    };
    let ghost secs = now.unix_secs()->0;
    let mut n: u64 = 0;
    while n < MAX_CANDIDATES
        invariant
            n <= MAX_CANDIDATES,
            now.unix_secs() == Some(secs),
            is_stamp(stamp@, secs),
            forall|k: int|
                0 <= k < n ==> !#[trigger] is_free_try(output_dir@, stamp@, k, views(taken@)),
        decreases MAX_CANDIDATES - n,
    {
        let path = candidate(output_dir, stamp.as_str(), n);
        let a = temp_name(output_dir, stamp.as_str(), n, "-A.mkv");
        let b = temp_name(output_dir, stamp.as_str(), n, "-B.mkv");
        if !contains_string(taken, path.as_str()) && !contains_string(taken, a.as_str())
            && !contains_string(taken, b.as_str()) {
            let f = BothFiles { a, b, path };
            assert(is_free_try(output_dir@, stamp@, n as int, views(taken@)));
            assert(is_first_free_try(f, output_dir@, stamp@, views(taken@)));
            let r: Result<BothFiles, PortError> = Ok(f);
            proof {
                lemma_both_allocated(r, output_dir@, now, views(taken@), stamp@);
            }
            return r;
        }
        n = n + 1;
    }
    Err(PortError::Io("too many filename collisions".to_owned()))
}

// ---------------------------------------------------------------------------
// Two recorders as one
// ---------------------------------------------------------------------------

/// Two recorders, and how each has exited if it has.
pub struct Duo<H> {
    pub a: Child<H>,
    pub b: Child<H>,
    pub a_exit: Option<ExitStatus>,
    pub b_exit: Option<ExitStatus>,
}

/// The names of two recorders.
#[verifier::ext_equal]
pub struct Pair {
    /// The recorder of the primary monitor.
    pub a: int,
    /// The recorder of the other one.
    pub b: int,
}

impl<H> Duo<H> {
    /// The names of the two.
    pub open spec fn pair(&self) -> Pair {
        Pair { a: self.a.who(), b: self.b.who() }
    }
}

/// One while the child runs.
pub open spec fn running(exit: Option<ExitStatus>) -> int {
    if exit is None {
        1
    } else {
        0
    }
}

/// The process group of `who` was signalled.
pub open spec fn signalled(call: PortCall, who: int, signal: Signal) -> bool {
    &&& call matches PortCall::Signal { who: w, group, signal: s, failed: _ }
    &&& w == who && group && s == signal
}

/// The recorders that still run are signalled, each with its process group, the
/// first one first.
pub open spec fn signal_pair_run(
    calls: Seq<PortCall>,
    pair: Pair,
    a_exit: Option<ExitStatus>,
    b_exit: Option<ExitStatus>,
    signal: Signal,
) -> bool {
    &&& calls.len() == running(a_exit) + running(b_exit)
    &&& a_exit is None ==> signalled(calls[0], pair.a, signal)
    &&& b_exit is None ==> signalled(calls[running(a_exit)], pair.b, signal)
}

/// The exit that a wait reported.
pub open spec fn reported(answer: Result<Option<ExitStatus>, Seq<char>>) -> Option<ExitStatus> {
    match answer {
        Ok(e) => e,
        Err(_) => None,
    }
}

/// What is left of `millis` at `later`.
pub open spec fn left_over(millis: u64, start: Timestamp, later: Timestamp) -> u64 {
    match later.millis_since(start) {
        Some(ms) => if (ms as u64) <= millis {
            (millis - (ms as u64)) as u64
        } else {
            0
        },
        None => millis,
    }
}

/// The recorders that still run are waited for, in the same time.
pub open spec fn wait_pair_run(
    calls: Seq<PortCall>,
    pair: Pair,
    a_exit: Option<ExitStatus>,
    b_exit: Option<ExitStatus>,
    millis: u64,
    a_after: Option<ExitStatus>,
    b_after: Option<ExitStatus>,
) -> bool {
    let n = running(a_exit);
    &&& calls.len() == 2 + n + running(b_exit)
    &&& calls[0] is Now
    &&& calls[1 + n] is Now
    &&& if a_exit is None {
        &&& calls[1] matches PortCall::WaitTimeout { who, millis: m, answer: w }
        &&& who == pair.a
        &&& m == millis
        &&& a_after == reported(w)
    } else {
        a_after == a_exit
    }
    &&& if b_exit is None {
        &&& calls[2 + n] matches PortCall::WaitTimeout { who, millis: m, answer: w }
        &&& who == pair.b
        &&& m == left_over(millis, calls[0]->Now_time, calls[1 + n]->Now_time)
        &&& b_after == reported(w)
    } else {
        b_after == b_exit
    }
}

/// The recorders that were killed are reaped, one after the other.
pub open spec fn reap_pair_run(
    calls: Seq<PortCall>,
    pair: Pair,
    a_exit: Option<ExitStatus>,
    b_exit: Option<ExitStatus>,
) -> bool {
    exists|k: int|
        {
            &&& 0 <= k <= calls.len()
            &&& #[trigger] reaped_or_gone(calls.take(k), pair.a, a_exit)
            &&& reaped_or_gone(calls.skip(k), pair.b, b_exit)
        }
}

/// A recorder that still ran when it was killed is reaped.
pub open spec fn reaped_or_gone(calls: Seq<PortCall>, who: int, exit: Option<ExitStatus>) -> bool {
    if exit is None {
        killed_run(calls, who, true)
    } else {
        calls.len() == 0
    }
}

/// Both recorders are ended in haste, one after the other.
pub open spec fn end_pair_run(calls: Seq<PortCall>, pair: Pair) -> bool {
    exists|k: int|
        {
            &&& 0 <= k <= calls.len()
            &&& #[trigger] recorder_run(calls.take(k), pair.a)
            &&& recorder_run(calls.skip(k), pair.b)
        }
}

/// What two children wrote to stderr.
pub open spec fn joined_stderr(a: Seq<char>, b: Seq<char>) -> Seq<char> {
    if a.len() == 0 {
        b
    } else if b.len() == 0 {
        a
    } else {
        a + "\n"@ + b
    }
}

/// The history after the stderr of both children was taken.
pub open spec fn with_both_stderr(
    log: Seq<PortCall>,
    pair: Pair,
    a: Seq<char>,
    b: Seq<char>,
) -> Seq<PortCall> {
    log.push(PortCall::Stderr { who: pair.a, text: a }).push(
        PortCall::Stderr { who: pair.b, text: b },
    )
}

fn left_of(millis: u64, start: Timestamp, later: Timestamp) -> (r: u64)
    ensures
        r == left_over(millis, start, later),
{
    match later.millis_after(start) {
        Some(ms) => if ms <= millis {
            millis - ms
        } else {
            0
        },
        None => millis,
    }
}

impl<S: CommandSpawner, C: Clock, N: Notifier, Cl: Clipboard> Ports<S, C, N, Cl> {
    pub(crate) fn signal_pair(&mut self, duo: &mut Duo<S::Child>, signal: Signal)
        ensures
            grown(final(self)@, old(self)@),
            final(self).same_ports(*old(self)),
            signal_pair_run(
                added(final(self)@, old(self)@),
                old(duo).pair(),
                old(duo).a_exit,
                old(duo).b_exit,
                signal,
            ),
            final(duo).pair() == old(duo).pair(),
            final(duo).a_exit == old(duo).a_exit,
            final(duo).b_exit == old(duo).b_exit,
    {
        let ghost start = self@;
        if duo.a_exit.is_none() {
            let _ = self.signal_group(&mut duo.a, signal);
        }
        if duo.b_exit.is_none() {
            let _ = self.signal_group(&mut duo.b, signal);
        }
        proof {
            let made = self@.skip(start.len() as int);
            assert(self@ =~= start + made);
            lemma_added(self@, start, made);
        }
    }

    pub(crate) fn wait_pair(&mut self, duo: &mut Duo<S::Child>, millis: u64)
        ensures
            grown(final(self)@, old(self)@),
            final(self).same_ports(*old(self)),
            wait_pair_run(
                added(final(self)@, old(self)@),
                old(duo).pair(),
                old(duo).a_exit,
                old(duo).b_exit,
                millis,
                final(duo).a_exit,
                final(duo).b_exit,
            ),
            final(duo).pair() == old(duo).pair(),
    {
        let ghost start = self@;
        let began = self.now();
        if duo.a_exit.is_none() {
            if let Ok(e) = self.wait_timeout(&mut duo.a, millis) {
                duo.a_exit = e;
            }
        }
        let later = self.now();
        if duo.b_exit.is_none() {
            if let Ok(e) = self.wait_timeout(&mut duo.b, left_of(millis, began, later)) {
                duo.b_exit = e;
            }
        }
        proof {
            let made = self@.skip(start.len() as int);
            assert(self@ =~= start + made);
            lemma_added(self@, start, made);
        }
    }

    pub(crate) fn reap_pair(&mut self, duo: &mut Duo<S::Child>)
        ensures
            grown(final(self)@, old(self)@),
            final(self).same_ports(*old(self)),
            reap_pair_run(
                added(final(self)@, old(self)@),
                old(duo).pair(),
                old(duo).a_exit,
                old(duo).b_exit,
            ),
            final(duo).pair() == old(duo).pair(),
    {
        let ghost start = self@;
        let ghost pair = duo.pair();
        proof {
            lemma_added(start, start, Seq::empty());
        }
        if duo.a_exit.is_none() {
            self.force_reap_after_kill(&mut duo.a);
        }
        let ghost mid = self@;
        let ghost first = added(mid, start);
        proof {
            lemma_grown(mid, start);
            lemma_added(mid, mid, Seq::empty());
        }
        if duo.b_exit.is_none() {
            self.force_reap_after_kill(&mut duo.b);
        }
        proof {
            let second = added(self@, mid);
            lemma_grown(self@, mid);
            let all = first + second;
            assert(self@ =~= start + all);
            lemma_added(self@, start, all);
            let k = first.len() as int;
            assert(all.take(k) =~= first);
            assert(all.skip(k) =~= second);
            assert(reaped_or_gone(all.take(k), pair.a, old(duo).a_exit));
        }
    }

    pub(crate) fn end_pair(&mut self, duo: &mut Duo<S::Child>)
        ensures
            grown(final(self)@, old(self)@),
            final(self).same_ports(*old(self)),
            end_pair_run(added(final(self)@, old(self)@), old(duo).pair()),
            final(duo).pair() == old(duo).pair(),
    {
        let ghost start = self@;
        let ghost pair = duo.pair();
        self.force_reap_recorder(&mut duo.a);
        let ghost mid = self@;
        let ghost first = added(mid, start);
        self.force_reap_recorder(&mut duo.b);
        proof {
            lemma_grown(mid, start);
            let second = added(self@, mid);
            lemma_grown(self@, mid);
            let all = first + second;
            assert(self@ =~= start + all);
            lemma_added(self@, start, all);
            let k = first.len() as int;
            assert(all.take(k) =~= first);
            assert(all.skip(k) =~= second);
            assert(recorder_run(all.take(k), pair.a));
        }
    }

    pub(crate) fn take_both_stderr(&mut self, duo: &mut Duo<S::Child>) -> (r: String)
        ensures
            final(self).same_ports(*old(self)),
            exists|a: Seq<char>, b: Seq<char>|
                {
                    &&& final(self)@ == #[trigger] with_both_stderr(
                        old(self)@,
                        old(duo).pair(),
                        a,
                        b,
                    )
                    &&& r@ == joined_stderr(a, b)
                },
            final(duo).pair() == old(duo).pair(),
            final(duo).a_exit == old(duo).a_exit,
            final(duo).b_exit == old(duo).b_exit,
    {
        let ghost start = self@;
        let ghost pair = duo.pair();
        let a = self.take_stderr_tail(&mut duo.a);
        let b = self.take_stderr_tail(&mut duo.b);
        assert(self@ == with_both_stderr(start, pair, a@, b@));
        if a.as_str().is_empty() {
            b
        } else if b.as_str().is_empty() {
            a
        } else {
            concat3(a.as_str(), "\n", b.as_str())
        }
    }
}

} // verus!
