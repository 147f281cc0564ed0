//! The worker that carries a view's requests to the session: what it does with
//! the commands that wait, and with a session that is gone.

use vstd::prelude::*;
use vstd::string::*;

use crate::audio::{AudioPlan, PlanView};
use crate::client::ClientError;
use crate::ipc::{IpcCommand, IpcRequest, IpcResponse, IpcStatus, RequestView};
use crate::text::{concat2, concat3, concat5, opt_view};
use crate::view::{ErrorSource, MsgView, OpKind, UiMsg};

verus! {

/// What a view asks of its worker.
#[derive(Debug, PartialEq, Eq)]
pub enum WorkerCmd {
    PollStatus,
    ListAudio,
    StartRegion { plan: AudioPlan, epoch: u64 },
    StartFullscreen { plan: AudioPlan, epoch: u64, output: Option<String>, fps: Option<u32> },
    StartBoth { plan: AudioPlan, epoch: u64 },
    Stop,
    ShutdownWorker,
}

/// What a [`WorkerCmd`] says.
#[verifier::ext_equal]
pub enum CmdView {
    PollStatus,
    ListAudio,
    StartRegion { plan: PlanView, epoch: u64 },
    StartFullscreen {
        plan: PlanView,
        epoch: u64,
        output: Option<Seq<char>>,
        fps: Option<u32>,
    },
    StartBoth { plan: PlanView, epoch: u64 },
    Stop,
    ShutdownWorker,
}

impl View for WorkerCmd {
    type V = CmdView;

    open spec fn view(&self) -> CmdView {
        match self {
            WorkerCmd::PollStatus => CmdView::PollStatus,
            WorkerCmd::ListAudio => CmdView::ListAudio,
            WorkerCmd::StartRegion { plan, epoch } => CmdView::StartRegion {
                plan: plan@,
                epoch: *epoch,
            },
            WorkerCmd::StartFullscreen { plan, epoch, output, fps } => CmdView::StartFullscreen {
                plan: plan@,
                epoch: *epoch,
                output: opt_view(*output),
                fps: *fps,
            },
            WorkerCmd::StartBoth { plan, epoch } => CmdView::StartBoth {
                plan: plan@,
                epoch: *epoch,
            },
            WorkerCmd::Stop => CmdView::Stop,
            WorkerCmd::ShutdownWorker => CmdView::ShutdownWorker,
        }
    }
}

/// A request that starts something, and what is said of it when it fails.
#[derive(Debug, PartialEq, Eq)]
pub struct StartJob {
    pub label: &'static str,
    pub request: IpcRequest,
    pub epoch: u64,
}

/// What a [`StartJob`] says.
#[verifier::ext_equal]
pub struct JobView {
    pub label: Seq<char>,
    pub request: RequestView,
    pub epoch: u64,
}

impl View for StartJob {
    type V = JobView;

    open spec fn view(&self) -> JobView {
        JobView { label: self.label@, request: self.request@, epoch: self.epoch }
    }
}

/// The request of a command that starts something.
pub open spec fn job_of(c: CmdView) -> Option<JobView> {
    match c {
        CmdView::StartRegion { plan, epoch } => Some(
            JobView {
                label: "start region"@,
                request: RequestView {
                    audio_plan: Some(plan),
                    ..RequestView::bare(IpcCommand::StartRegion)
                },
                epoch,
            },
        ),
        CmdView::StartFullscreen { plan, epoch, output, fps } => Some(
            JobView {
                label: "start one monitor"@,
                request: RequestView {
                    audio_plan: Some(plan),
                    output,
                    fps,
                    ..RequestView::bare(IpcCommand::StartFullscreen)
                },
                epoch,
            },
        ),
        CmdView::StartBoth { plan, epoch } => Some(
            JobView {
                label: "start both"@,
                request: RequestView {
                    audio_plan: Some(plan),
                    ..RequestView::bare(IpcCommand::StartBoth)
                },
                epoch,
            },
        ),
        _ => None,
    }
}

/// The requests of the commands that start something, in order.
pub open spec fn jobs_of(cs: Seq<CmdView>) -> Seq<JobView> {
    crate::seqs::somes(cs.map_values(|c: CmdView| job_of(c)))
}

/// What the jobs of a batch say.
pub open spec fn job_views(v: Seq<StartJob>) -> Seq<JobView> {
    v.map_values(|j: StartJob| j@)
}

/// The commands that waited, sorted.
pub struct Batch {
    shutdown: bool,
    stop: bool,
    list_audio: bool,
    poll: bool,
    starts: Vec<StartJob>,
    all: Ghost<Seq<CmdView>>,
}

/// What is done with a batch, in this order.
#[derive(Debug, PartialEq, Eq)]
pub struct BatchPlan {
    /// The worker ends, and does nothing else.
    pub shutdown: bool,
    pub stop: bool,
    pub list_audio: bool,
    pub starts: Vec<StartJob>,
    pub poll: bool,
}

impl Batch {
    /// The commands, in the order in which they were given.
    pub closed spec fn commands(&self) -> Seq<CmdView> {
        self.all@
    }

    /// The commands are sorted.
    pub closed spec fn wf(&self) -> bool {
        &&& self.shutdown == self.all@.contains(CmdView::ShutdownWorker)
        &&& self.stop == self.all@.contains(CmdView::Stop)
        &&& self.list_audio == self.all@.contains(CmdView::ListAudio)
        &&& self.poll == self.all@.contains(CmdView::PollStatus)
        &&& job_views(self.starts@) == jobs_of(self.all@)
    }

    /// No command yet.
    pub fn new() -> (r: Self)
        ensures
            r.wf(),
            r.commands() == Seq::<CmdView>::empty(),
    {
        let r = Batch {
            shutdown: false,
            stop: false,
            list_audio: false,
            poll: false,
            starts: Vec::new(),
            all: Ghost(Seq::empty()),
        };
        assert(job_views(r.starts@) =~= jobs_of(r.all@));
        r
    }

    /// One more command.
    pub fn push(&mut self, cmd: WorkerCmd)
        requires
            old(self).wf(),
        ensures
            final(self).wf(),
            final(self).commands() == old(self).commands().push(cmd@),
    {
        let ghost before = self.all@;
        let ghost now = before.push(cmd@);
        let ghost f = |c: CmdView| job_of(c);
        proof {
            assert forall|c: CmdView| now.contains(c) == (before.contains(c) || c == cmd@) by {
                if before.contains(c) {
                    let i = choose|i: int| 0 <= i < before.len() && before[i] == c;
                    assert(now[i] == c);
                }
                if c == cmd@ {
                    assert(now[before.len() as int] == c);
                }
                if now.contains(c) {
                    let i = choose|i: int| 0 <= i < now.len() && now[i] == c;
                    if i < before.len() {
                        assert(before[i] == c);
                    }
                }
            }
            assert(now.map_values(f).drop_last() =~= before.map_values(f));
            assert(now.map_values(f).last() == job_of(cmd@));
        }
        let ghost had = self.starts@;
        self.all = Ghost(now);
        match cmd {
            WorkerCmd::ShutdownWorker => {
                self.shutdown = true;
            },
            WorkerCmd::Stop => {
                self.stop = true;
            },
            WorkerCmd::PollStatus => {
                self.poll = true;
            },
            WorkerCmd::ListAudio => {
                self.list_audio = true;
            },
            WorkerCmd::StartRegion { plan, epoch } => {
                let job = StartJob {
                    label: "start region",
                    request: IpcRequest::start_region_plan(plan),
                    epoch,
                };
                let ghost v = job@;
                self.starts.push(job);
                assert(job_views(self.starts@) =~= job_views(had).push(v));
            },
            WorkerCmd::StartFullscreen { plan, epoch, output, fps } => {
                let job = StartJob {
                    label: "start one monitor",
                    request: IpcRequest::start_fullscreen_plan(plan, output, fps),
                    epoch,
                };
                let ghost v = job@;
                self.starts.push(job);
                assert(job_views(self.starts@) =~= job_views(had).push(v));
            },
            WorkerCmd::StartBoth { plan, epoch } => {
                let job = StartJob {
                    label: "start both",
                    request: IpcRequest::start_both_plan(plan),
                    epoch,
                };
                let ghost v = job@;
                self.starts.push(job);
                assert(job_views(self.starts@) =~= job_views(had).push(v));
            },
        }
    }

    /// What is done with the commands: several polls are one, and a stop
    /// overtakes every start that waited with it.
    pub fn plan(self) -> (r: BatchPlan)
        requires
            self.wf(),
        ensures
            r.shutdown == self.commands().contains(CmdView::ShutdownWorker),
            r.stop == self.commands().contains(CmdView::Stop),
            r.list_audio == self.commands().contains(CmdView::ListAudio),
            r.poll == self.commands().contains(CmdView::PollStatus),
            job_views(r.starts@) == (if r.stop {
                Seq::empty()
            } else {
                jobs_of(self.commands())
            }),
    {
        let starts: Vec<StartJob> = if self.stop {
            let none: Vec<StartJob> = Vec::new();
            assert(job_views(none@) =~= Seq::empty());
            none
        } else {
            self.starts
        };
        BatchPlan {
            shutdown: self.shutdown,
            stop: self.stop,
            list_audio: self.list_audio,
            starts,
            poll: self.poll,
        }
    }
}

/// How many polls in a row may find the session gone before it is revived.
pub const CONNECT_FAIL_LIMIT: u32 = 5;

/// What follows from a poll that failed.
#[derive(Debug, Clone, PartialEq, Eq)]
pub enum PollFailure {
    /// It may pass.
    Quiet,
    /// The session is gone: revive it.
    Revive,
    /// It is told.
    Report(String),
}

/// The link to the session: how many polls in a row found it gone.
pub struct Link {
    streak: u32,
}

impl Link {
    /// How many polls in a row found the session gone.
    pub closed spec fn failures(&self) -> int {
        self.streak as int
    }

    /// Fewer than the limit.
    pub closed spec fn wf(&self) -> bool {
        self.streak < CONNECT_FAIL_LIMIT
    }

    /// A link that has not failed.
    pub fn new() -> (r: Self)
        ensures
            r.wf(),
            r.failures() == 0,
    {
        Link { streak: 0 }
    }

    /// The session answered.
    pub fn answered(&mut self)
        ensures
            final(self).wf(),
            final(self).failures() == 0,
    {
        self.streak = 0;
    }

    /// A poll failed. The session is revived when as many in a row as the limit
    /// found it gone; an error that may pass is not told.
    pub fn poll_failed(&mut self, e: &ClientError) -> (r: PollFailure)
        requires
            old(self).wf(),
        ensures
            final(self).wf(),
            match e.is_gone() {
                true => if old(self).failures() + 1 >= CONNECT_FAIL_LIMIT {
                    r is Revive && final(self).failures() == 0
                } else {
                    r is Quiet && final(self).failures() == old(self).failures() + 1
                },
                false => final(self).failures() == old(self).failures() && if e.may_pass() {
                    r is Quiet
                } else {
                    r is Report && r->Report_0@ == "status: "@ + e.text()
                },
            },
    {
        if e.is_connect_like() {
            self.streak = self.streak + 1;
            if self.streak >= CONNECT_FAIL_LIMIT {
                self.streak = 0;
                return PollFailure::Revive;
            }
            return PollFailure::Quiet;
        }
        if e.is_transient() {
            return PollFailure::Quiet;
        }
        PollFailure::Report(concat2("status: ", e.to_text().as_str()))
    }

    /// A stop was asked for: what is told of its answer.
    pub fn stop_outcome(&mut self, r: Result<IpcResponse, ClientError>) -> (m: UiMsg)
        requires
            old(self).wf(),
        ensures
            final(self).wf(),
            final(self).failures() == old(self).failures_after(r),
            m@ == (match r {
                Ok(resp) => MsgView::OpDone { kind: OpKind::Stop, resp: resp@, epoch: 0 },
                Err(e) => MsgView::Error {
                    source: ErrorSource::Stop,
                    message: "stop: "@ + e.text(),
                    epoch: 0,
                },
            }),
    {
        match r {
            Ok(resp) => {
                self.answered();
                UiMsg::OpDone { kind: OpKind::Stop, resp, epoch: 0 }
            },
            Err(e) => UiMsg::Error {
                source: ErrorSource::Stop,
                message: concat2("stop: ", e.to_text().as_str()),
                epoch: 0,
            },
        }
    }

    /// The audio inventory was asked for: the answer, or what is told instead.
    pub fn audio_outcome(&mut self, r: Result<IpcResponse, ClientError>) -> (m: Result<
        IpcResponse,
        UiMsg,
    >)
        requires
            old(self).wf(),
        ensures
            final(self).wf(),
            final(self).failures() == old(self).failures_after(r),
            match r {
                Ok(resp) => m == Ok::<IpcResponse, UiMsg>(resp),
                Err(e) => m is Err && m->Err_0@ == status_error_view("list audio: "@ + e.text()),
            },
    {
        match r {
            Ok(resp) => {
                self.answered();
                Ok(resp)
            },
            Err(e) => Err(status_error(concat2("list audio: ", e.to_text().as_str()))),
        }
    }

    /// The status was asked for: what is told, or that the session is to be revived.
    pub fn poll_outcome(&mut self, r: Result<IpcResponse, ClientError>) -> (n: PollNext)
        requires
            old(self).wf(),
        ensures
            final(self).wf(),
            match r {
                Ok(resp) => {
                    &&& final(self).failures() == 0
                    &&& n is Tell && n->Tell_0@ == MsgView::Status(resp@.status)
                },
                Err(e) => if e.is_gone() {
                    if old(self).failures() + 1 >= CONNECT_FAIL_LIMIT {
                        n == PollNext::Revive(e) && final(self).failures() == 0
                    } else {
                        n is Quiet && final(self).failures() == old(self).failures() + 1
                    }
                } else {
                    &&& final(self).failures() == old(self).failures()
                    &&& if e.may_pass() {
                        n is Quiet
                    } else {
                        n is Tell && n->Tell_0@ == status_error_view("status: "@ + e.text())
                    }
                },
            },
    {
        match r {
            Ok(resp) => {
                self.answered();
                PollNext::Tell(UiMsg::Status(resp.status))
            },
            Err(e) => match self.poll_failed(&e) {
                PollFailure::Quiet => PollNext::Quiet,
                PollFailure::Report(message) => PollNext::Tell(status_error(message)),
                PollFailure::Revive => PollNext::Revive(e),
            },
        }
    }

    /// How many polls in a row found the session gone, after a request with the
    /// result `r`.
    pub open spec fn failures_after(&self, r: Result<IpcResponse, ClientError>) -> int {
        if r is Ok {
            0
        } else {
            self.failures()
        }
    }
}

/// What follows from a poll.
#[derive(Debug, PartialEq, Eq)]
pub enum PollNext {
    /// Nothing: the failure may pass.
    Quiet,
    /// The view is told.
    Tell(UiMsg),
    /// The session is gone, as the error says: revive it.
    Revive(ClientError),
}

/// A failure to learn how the session is.
pub open spec fn status_error_view(message: Seq<char>) -> MsgView {
    MsgView::Error { source: ErrorSource::Status, message, epoch: 0 }
}

fn status_error(message: String) -> (m: UiMsg)
    ensures
        m@ == status_error_view(message@),
{
    UiMsg::Error { source: ErrorSource::Status, message, epoch: 0 }
}

/// A start was asked for: what is told of its answer, with the start's number.
pub fn start_outcome(job: &StartJob, r: Result<IpcResponse, ClientError>) -> (m: UiMsg)
    ensures
        m@ == (match r {
            Ok(resp) => MsgView::OpDone { kind: OpKind::Start, resp: resp@, epoch: job@.epoch },
            Err(e) => MsgView::Error {
                source: ErrorSource::Start,
                message: job@.label + ": "@ + e.text(),
                epoch: job@.epoch,
            },
        }),
{
    match r {
        Ok(resp) => UiMsg::OpDone { kind: OpKind::Start, resp, epoch: job.epoch },
        Err(e) => UiMsg::Error {
            source: ErrorSource::Start,
            message: concat3(job.label, ": ", e.to_text().as_str()),
            epoch: job.epoch,
        },
    }
}

/// The view was to be attached: what is told of it.
pub fn attach_outcome(r: Result<IpcStatus, String>) -> (m: UiMsg)
    ensures
        m@ == (match r {
            Ok(status) => MsgView::Subscribed(status@),
            Err(e) => MsgView::SubscribeFailed("could not attach GUI view: "@ + e@),
        }),
{
    match r {
        Ok(status) => UiMsg::Subscribed(status),
        Err(e) => UiMsg::SubscribeFailed(concat2("could not attach GUI view: ", e.as_str())),
    }
}

/// How reviving a session that was lost went.
#[derive(Debug, PartialEq, Eq)]
pub enum Revival {
    /// The session could not be started again, and why.
    NotStarted(String),
    /// The view was attached to it again.
    Attached(IpcStatus),
    /// The view could not be attached to it, and why.
    NotAttached(String),
}

/// What a view is told, in order.
pub open spec fn msg_views(v: Seq<UiMsg>) -> Seq<MsgView> {
    v.map_values(|m: UiMsg| m@)
}

/// What a view is told of a revival.
pub open spec fn revival_msgs(lost: ClientError, r: Revival) -> Seq<MsgView> {
    match r {
        Revival::NotStarted(e) => seq![
            status_error_view(
                "lost connection to session server ("@ + lost.text() + "); revive failed: "@ + e@,
            ),
        ],
        Revival::Attached(status) => seq![
            MsgView::Subscribed(status@),
            MsgView::Info("reconnected to session server"@),
        ],
        Revival::NotAttached(e) => seq![
            MsgView::SubscribeFailed("lost session and could not re-attach: "@ + e@),
        ],
    }
}

/// The session was lost and is to be revived: what is told of that, and whether
/// the worker goes on. It ends where the view cannot be attached again.
pub fn revival_outcome(lost: &ClientError, r: Revival) -> (o: (Vec<UiMsg>, bool))
    ensures
        msg_views(o.0@) == revival_msgs(*lost, r),
        o.1 == !(r is NotAttached),
{
    let mut told: Vec<UiMsg> = Vec::new();
    let ghost want = revival_msgs(*lost, r);
    let goes_on = match r {
        Revival::NotStarted(e) => {
            told.push(status_error(revive_failed(lost, e.as_str())));
            true
        },
        Revival::Attached(status) => {
            told.push(UiMsg::Subscribed(status));
            told.push(UiMsg::Info("reconnected to session server".to_owned()));
            true
        },
        Revival::NotAttached(e) => {
            told.push(
                UiMsg::SubscribeFailed(
                    concat2("lost session and could not re-attach: ", e.as_str()),
                ),
            );
            false
        },
    };
    assert(msg_views(told@) =~= want);
    (told, goes_on)
}

/// How often a view tries to be attached.
pub const SUBSCRIBE_ATTEMPTS: u32 = 8;

/// The pause after attempt number `attempt`, counted from zero, in milliseconds.
pub fn subscribe_pause(attempt: u32) -> (r: u64)
    ensures
        r == 40 * (attempt + 1),
{
    40 * (attempt as u64 + 1)
}

/// Why the session did not attach a view, if it did not.
pub fn subscribe_refused(resp: &IpcResponse) -> (r: Option<String>)
    ensures
        opt_view(r) == (if resp@.ok {
            None
        } else {
            Some("subscribe rejected: "@ + resp@.message + " ("@ + resp@.code + ")"@)
        }),
{
    if resp.ok {
        None
    } else {
        Some(
            concat5(
                "subscribe rejected: ",
                resp.message.as_str(),
                " (",
                resp.code.as_str(),
                ")",
            ),
        )
    }
}

/// What is told when reviving the session failed.
pub fn revive_failed(lost: &ClientError, error: &str) -> (r: String)
    ensures
        r@ == "lost connection to session server ("@ + lost.text() + "); revive failed: "@ + error@,
{
    let mut s = concat2("lost connection to session server (", lost.to_text().as_str());
    s.append("); revive failed: ");
    s.append(error);
    s
}

} // verus!
