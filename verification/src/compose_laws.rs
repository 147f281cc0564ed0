//! Laws of recording two monitors: where each stands in the video, and which
//! recording is which.

use vstd::prelude::*;
use vstd::string::*;

use crate::both::{both_spawned_run, compose_run, BothView};
use crate::dual::{both_argv, compose_argv, compose_filter, layout_of, HeadView, LayoutView};
use crate::outputs::OutputView;
use crate::session::{RecView, StepView};
use crate::text::decimal_int;
use crate::trace::PortCall;

verus! {

// ---------------------------------------------------------------------------
// The video
// ---------------------------------------------------------------------------

/// Where two videos lie on a canvas.
#[verifier::ext_equal]
pub struct Placement {
    pub canvas_width: int,
    pub canvas_height: int,
    pub first_x: int,
    pub first_y: int,
    pub second_x: int,
    pub second_y: int,
}

/// A number and another, as `ffmpeg` reads them.
pub open spec fn colon_pair(a: int, b: int) -> Seq<char> {
    decimal_int(a) + ":"@ + decimal_int(b)
}

/// `filter` scales two videos to the sizes given, pads the first onto the canvas
/// and lays the second over it.
pub open spec fn lays_out(
    filter: Seq<char>,
    p: Placement,
    first: (int, int),
    second: (int, int),
) -> bool {
    filter == "[0:v]scale="@ + colon_pair(first.0, first.1) + ",pad="@ + colon_pair(
        p.canvas_width,
        p.canvas_height,
    ) + ":"@ + colon_pair(p.first_x, p.first_y) + ":black[base];[1:v]scale="@ + colon_pair(
        second.0,
        second.1,
    ) + "[over];[base][over]overlay="@ + colon_pair(p.second_x, p.second_y)
        + ":eof_action=pass[v]"@
}

/// The videos lie as far from each other as the monitors stand, on a canvas that
/// holds both and of which every edge touches one of them.
pub open spec fn is_true_to(p: Placement, l: LayoutView) -> bool {
    &&& p.second_x - p.first_x == l.secondary.x - l.primary.x
    &&& p.second_y - p.first_y == l.secondary.y - l.primary.y
    &&& 0 <= p.first_x && p.first_x + l.primary.width <= p.canvas_width
    &&& 0 <= p.first_y && p.first_y + l.primary.height <= p.canvas_height
    &&& 0 <= p.second_x && p.second_x + l.secondary.width <= p.canvas_width
    &&& 0 <= p.second_y && p.second_y + l.secondary.height <= p.canvas_height
    &&& p.first_x == 0 || p.second_x == 0
    &&& p.first_y == 0 || p.second_y == 0
    &&& p.first_x + l.primary.width == p.canvas_width || p.second_x + l.secondary.width
        == p.canvas_width
    &&& p.first_y + l.primary.height == p.canvas_height || p.second_y + l.secondary.height
        == p.canvas_height
}

/// In the video the monitors stand as they do on the desk: each in its own size,
/// as far from each other, both whole on a canvas no larger than needed.
pub proof fn videos_stand_as_their_monitors(l: LayoutView) -> (p: Placement)
    ensures
        is_true_to(p, l),
        lays_out(
            compose_filter(l),
            p,
            (l.primary.width, l.primary.height),
            (l.secondary.width, l.secondary.height),
        ),
{
    let left = if l.primary.x <= l.secondary.x {
        l.primary.x
    } else {
        l.secondary.x
    };
    let top = if l.primary.y <= l.secondary.y {
        l.primary.y
    } else {
        l.secondary.y
    };
    let right = if l.primary.x + l.primary.width >= l.secondary.x + l.secondary.width {
        l.primary.x + l.primary.width
    } else {
        l.secondary.x + l.secondary.width
    };
    let bottom = if l.primary.y + l.primary.height >= l.secondary.y + l.secondary.height {
        l.primary.y + l.primary.height
    } else {
        l.secondary.y + l.secondary.height
    };
    Placement {
        canvas_width: right - left,
        canvas_height: bottom - top,
        first_x: l.primary.x - left,
        first_y: l.primary.y - top,
        second_x: l.secondary.x - left,
        second_y: l.secondary.y - top,
    }
}

/// Only how the monitors stand to each other counts, not where the desk begins.
pub proof fn moving_the_desk_changes_nothing(l: LayoutView, dx: int, dy: int)
    ensures
        compose_filter(
            LayoutView {
                primary: HeadView { x: l.primary.x + dx, y: l.primary.y + dy, ..l.primary },
                secondary: HeadView { x: l.secondary.x + dx, y: l.secondary.y + dy, ..l.secondary },
            },
        ) == compose_filter(l),
{
}

/// `h` is the output `o`, with its name, place and size.
pub open spec fn is_head(h: HeadView, o: OutputView) -> bool {
    &&& h.name == o.name
    &&& o.x is Some && h.x == o.x->0
    &&& o.y is Some && h.y == o.y->0
    &&& o.width is Some && h.width == o.width->0
    &&& o.height is Some && h.height == o.height->0
}

/// A layout is made of the two outputs as they are. The primary one stands further
/// left, or in the same column further up; in one place it is the first.
pub proof fn layout_is_of_the_outputs(outputs: Seq<OutputView>)
    requires
        outputs.len() == 2,
    ensures
        layout_of(outputs) is None <==> (exists|i: int|
            0 <= i < 2 && {
                let o = #[trigger] outputs[i];
                o.x is None || o.y is None || o.width is None || o.height is None || o.width->0 <= 0
                    || o.height->0 <= 0
            }),
        layout_of(outputs) is Some ==> {
            let l = layout_of(outputs)->0;
            let (a, b) = (outputs[0], outputs[1]);
            &&& (is_head(l.primary, a) && is_head(l.secondary, b)) || (is_head(l.primary, b)
                && is_head(l.secondary, a))
            &&& l.primary.x < l.secondary.x || (l.primary.x == l.secondary.x && l.primary.y
                <= l.secondary.y)
            &&& a.x == b.x && a.y == b.y ==> is_head(l.primary, a)
        },
{
    let broken = |o: OutputView|
        o.x is None || o.y is None || o.width is None || o.height is None || o.width->0 <= 0
            || o.height->0 <= 0;
    if layout_of(outputs) is None {
        if broken(outputs[0]) {
            assert(broken(outputs[0]));
        } else {
            assert(broken(outputs[1]));
        }
    }
}

/// What is being captured names both monitors, the primary one first.
pub proof fn label_names_both(l: LayoutView)
    ensures
        l.label().take(l.primary.name.len() as int) == l.primary.name,
        l.label().skip(l.label().len() - l.secondary.name.len()) == l.secondary.name,
        l.label().len() == l.primary.name.len() + 1 + l.secondary.name.len(),
        l.label()[l.primary.name.len() as int] == '+',
{
    reveal_strlit("+");
    assert(l.label().take(l.primary.name.len() as int) =~= l.primary.name);
    assert(l.label().skip(l.label().len() - l.secondary.name.len()) =~= l.secondary.name);
}

// ---------------------------------------------------------------------------
// The programs
// ---------------------------------------------------------------------------

/// The option `flag` is given with `value`.
pub open spec fn given(argv: Seq<Seq<char>>, flag: Seq<char>, value: Seq<char>) -> bool {
    exists|i: int| 0 <= i && i + 1 < argv.len() && #[trigger] argv[i] == flag && argv[i + 1] == value
}

/// Each recorder captures the monitor that it is told, at sixty frames and every
/// one of them, into the file that it is told; and audio exactly if asked for.
pub proof fn both_argv_says_what_is_recorded(name: Seq<char>, audio: bool, path: Seq<char>)
    ensures
        ({
            let argv = both_argv(name, audio, path);
            &&& argv[0] == "wf-recorder"@
            &&& argv[1] == "-o"@ && argv[2] == name
            &&& given(argv, "-r"@, "60"@)
            &&& argv.contains("-D"@)
            &&& argv[argv.len() - 2] == "-f"@ && argv.last() == path
            &&& name != "-a"@ && path != "-a"@ ==> (argv.contains("-a"@) <==> audio)
        }),
{
    let argv = both_argv(name, audio, path);
    reveal_strlit("wf-recorder");
    reveal_strlit("-o");
    reveal_strlit("-r");
    reveal_strlit("60");
    reveal_strlit("-D");
    reveal_strlit("-f");
    reveal_strlit("-a");
    assert(argv[3] == "-r"@);
    assert(argv[5] == "-D"@);
    if audio {
        assert(argv[6] == "-a"@);
    } else if name != "-a"@ && path != "-a"@ {
        assert forall|i: int| 0 <= i < argv.len() implies #[trigger] argv[i] != "-a"@ by {
            assert("-o"@[1] == 'o' && "-r"@[1] == 'r' && "-D"@[1] == 'D' && "-f"@[1] == 'f'
                && "-a"@[1] == 'a' && "60"@[0] == '6' && "wf-recorder"@[0] == 'w' && "-a"@[0]
                == '-');
        }
    }
}

/// The program that composes reads the recording of the primary monitor first and
/// that of the other one second, lays them out as the monitors stand, writes the
/// video that was asked for, and takes audio from the primary one alone.
pub proof fn compose_argv_says_what_is_composed(
    l: LayoutView,
    audio: bool,
    a: Seq<char>,
    b: Seq<char>,
    path: Seq<char>,
)
    ensures
        ({
            let argv = compose_argv(l, audio, a, b, path);
            &&& argv[0] == "ffmpeg"@
            &&& argv[5] == "-i"@ && argv[6] == a && argv[7] == "-i"@ && argv[8] == b
            &&& given(argv, "-filter_complex"@, compose_filter(l))
            &&& given(argv, "-map"@, "[v]"@)
            &&& argv.last() == path
            &&& audio ==> given(argv, "-map"@, "0:a"@)
            &&& !audio && a != "0:a"@ && b != "0:a"@ && path != "0:a"@ ==> !argv.contains("0:a"@)
        }),
{
    let argv = compose_argv(l, audio, a, b, path);
    assert(argv[9] == "-filter_complex"@);
    assert(argv[11] == "-map"@);
    if audio {
        assert(argv[13] == "-map"@);
    } else if a != "0:a"@ && b != "0:a"@ && path != "0:a"@ {
        reveal_strlit("ffmpeg");
        reveal_strlit("-nostdin");
        reveal_strlit("-loglevel");
        reveal_strlit("error");
        reveal_strlit("-y");
        reveal_strlit("-i");
        reveal_strlit("-filter_complex");
        reveal_strlit("-map");
        reveal_strlit("[v]");
        reveal_strlit("0:a");
        reveal_strlit("[0:v]scale=");
        assert(compose_filter(l)[0] == "[0:v]scale="@[0]);
        assert forall|i: int| 0 <= i < argv.len() implies #[trigger] argv[i] != "0:a"@ by {
            assert("0:a"@[0] == '0' && "ffmpeg"@[0] == 'f' && "-nostdin"@[0] == '-'
                && "-loglevel"@[0] == '-' && "error"@[0] == 'e' && "-y"@[0] == '-' && "-i"@[0]
                == '-' && "-filter_complex"@[0] == '-' && "-map"@[0] == '-' && "[v]"@[0] == '['
                && compose_filter(l)[0] == '[');
        }
    }
}

/// The first recorder captures the primary monitor into the file that is composed
/// first, with the audio of the session; the second one the other monitor into the
/// other file, without. Both have a process group of their own.
pub proof fn each_monitor_has_its_recorder(
    pre: RecView,
    files: BothView,
    path: Seq<char>,
    calls: Seq<PortCall>,
    post: RecView,
    out: StepView,
)
    requires
        both_spawned_run(pre, files, path, calls, post, out),
    ensures
        calls[0] is Spawn && calls[0]->Spawn_new_group,
        calls[0]->Spawn_argv[2] == files.layout.primary.name,
        calls[0]->Spawn_argv.last() == files.a,
        pre.audio ==> calls[0]->Spawn_argv.contains("-a"@),
        calls[0]->Spawn_failed is None ==> {
            &&& calls.len() >= 2 && calls[1] is Spawn && calls[1]->Spawn_new_group
            &&& calls[1]->Spawn_argv[2] == files.layout.secondary.name
            &&& calls[1]->Spawn_argv.last() == files.b
            &&& files.layout.secondary.name != "-a"@ && files.b != "-a"@
                ==> !calls[1]->Spawn_argv.contains("-a"@)
        },
{
    both_argv_says_what_is_recorded(files.layout.primary.name, pre.audio, files.a);
    if pre.audio {
        assert(calls[0]->Spawn_argv[6] == "-a"@);
    }
    if calls[0]->Spawn_failed is None {
        both_argv_says_what_is_recorded(files.layout.secondary.name, false, files.b);
    }
}

/// What is composed is the recording of the primary monitor and that of the other
/// one, into the file of the session.
pub proof fn composing_takes_the_recordings(
    pre: RecView,
    calls: Seq<PortCall>,
    post: RecView,
    out: StepView,
)
    requires
        compose_run(pre, calls, post, out),
    ensures
        calls[0] is Spawn,
        calls[0]->Spawn_argv[6] == pre.both->0.a,
        calls[0]->Spawn_argv[8] == pre.both->0.b,
        calls[0]->Spawn_argv.last() == pre.output_path->0,
        given(
            calls[0]->Spawn_argv,
            "-filter_complex"@,
            compose_filter(pre.both->0.layout),
        ),
        pre.audio ==> given(calls[0]->Spawn_argv, "-map"@, "0:a"@),
{
    let files = pre.both->0;
    compose_argv_says_what_is_composed(
        files.layout,
        pre.audio,
        files.a,
        files.b,
        pre.output_path->0,
    );
}

} // verus!
