//! The run of a plan against a device.
//!
//! A session holds a plan and a place in it. It does no I/O: it asks its
//! caller to open a file, to write to it or to read it, and takes back what
//! came of that. A failure ends the run where it stands: what was written
//! before stays written, and nothing after it is written.

use vstd::prelude::*;
use vstd::utf8::*;
use crate::plan::{
    control_file_path, control_file_path_spec, plan_view, Access, AccessView, ControlFile,
    Layout, Payload, PayloadView, Step, StepView,
};
use crate::resolve::{Paths, ResolvedDevicePaths};
use crate::text::text_copy;

verus! {

/// Why a run ended early.
#[derive(Debug, Clone, Copy, PartialEq, Eq, Structural)]
pub enum ApplyError {
    /// A required control file is missing or could not be opened.
    ControlFileUnavailable(ControlFile),
    /// A write failed after the file had been opened: the file, and the
    /// number of the write among those of its step, counted from 0.
    WriteFailed(ControlFile, usize),
    /// A file was opened and could not be read, or held no line.
    ReadFailed(ControlFile),
}

/// What a session asks its caller to do.
#[derive(Debug, Clone, PartialEq, Eq)]
pub enum Request {
    /// Open the file at `path`, for writing or for reading. The file stays
    /// open until the next `Open` or the end of the run.
    Open { file: ControlFile, path: String, write: bool },
    /// Write the payload to the open file, in one write.
    Write { file: ControlFile, payload: Payload },
    /// Read the first line of the open file and send it back without its
    /// line ending.
    ReadLine { file: ControlFile },
    /// Read the open file and show what it holds.
    Show { file: ControlFile, layout: Layout },
    /// Nothing is done with this file, which is optional and not there.
    /// Where `announce` is set, tell the user.
    Skip { file: ControlFile, announce: bool },
}

/// What came of a request.
#[derive(Debug, Clone, PartialEq, Eq)]
pub enum Reply {
    /// It was done.
    Done,
    /// The line that was read.
    Line(String),
    /// The file is missing or could not be opened.
    Unavailable,
    /// The file is open and the write or the read failed.
    Failed,
}

/// The mathematical value of a [`Request`].
pub enum RequestView {
    Open { file: ControlFile, path: Seq<u8>, write: bool },
    Write { file: ControlFile, payload: PayloadView },
    ReadLine { file: ControlFile },
    Show { file: ControlFile, layout: Layout },
    Skip { file: ControlFile, announce: bool },
}

/// The mathematical value of a [`Reply`].
pub enum ReplyView {
    Done,
    Line(Seq<u8>),
    Unavailable,
    Failed,
}

impl View for Request {
    type V = RequestView;

    open spec fn view(&self) -> RequestView {
        match *self {
            Request::Open { file, path, write } => RequestView::Open {
                file,
                path: encode_utf8(path@),
                write,
            },
            Request::Write { file, payload } => RequestView::Write { file, payload: payload@ },
            Request::ReadLine { file } => RequestView::ReadLine { file },
            Request::Show { file, layout } => RequestView::Show { file, layout },
            Request::Skip { file, announce } => RequestView::Skip { file, announce },
        }
    }
}

impl View for Reply {
    type V = ReplyView;

    open spec fn view(&self) -> ReplyView {
        match *self {
            Reply::Done => ReplyView::Done,
            Reply::Line(line) => ReplyView::Line(encode_utf8(line@)),
            Reply::Unavailable => ReplyView::Unavailable,
            Reply::Failed => ReplyView::Failed,
        }
    }
}

/// The request that a session waits to hear of.
#[derive(Debug, Clone, Copy, PartialEq, Eq, Structural)]
pub enum Pending {
    /// The opening of the step's file.
    Open,
    /// The write of the step's payload of this number.
    Write(usize),
    /// The opening of the file that a restore reads.
    OpenSource,
    /// The line that a restore reads.
    ReadLine,
    /// The opening of the file that a restore writes, the line in hand.
    OpenTarget,
    /// The write of the line that a restore read.
    WriteLine,
    /// The showing of the step's file.
    Show,
    /// The passing over of the step.
    Skip,
}

/// The run of a plan, at one of its steps.
#[derive(Debug, PartialEq, Eq)]
pub struct Session {
    paths: ResolvedDevicePaths,
    plan: Vec<Step>,
    step: usize,
    pending: Pending,
    line: String,
}

/// The mathematical value of a [`Session`].
pub struct SessionView {
    /// Where the device's files are.
    pub paths: Paths,
    /// The plan that is run.
    pub plan: Seq<StepView>,
    /// The number of the step that the session stands at.
    pub step: int,
    /// The request that it waits to hear of.
    pub pending: Pending,
    /// The line that a restore has read.
    pub line: Seq<u8>,
}

/// What a session does after a reply.
#[derive(Debug, PartialEq, Eq)]
pub enum SessionTurn {
    /// It goes on and asks for something.
    Ask(Session, Request),
    /// The run is over.
    Done(Result<(), ApplyError>),
}

/// The mathematical value of a [`SessionTurn`].
pub enum TurnView {
    Ask(SessionView, RequestView),
    Done(Result<(), ApplyError>),
}

impl View for Session {
    type V = SessionView;

    closed spec fn view(&self) -> SessionView {
        SessionView {
            paths: self.paths@,
            plan: plan_view(self.plan@),
            step: self.step as int,
            pending: self.pending,
            line: encode_utf8(self.line@),
        }
    }
}

impl View for SessionTurn {
    type V = TurnView;

    open spec fn view(&self) -> TurnView {
        match *self {
            SessionTurn::Ask(session, request) => TurnView::Ask(session@, request@),
            SessionTurn::Done(result) => TurnView::Done(result),
        }
    }
}

/// The request to open `file`.
pub open spec fn open_request(s: SessionView, file: ControlFile, write: bool) -> RequestView {
    RequestView::Open { file, path: control_file_path_spec(s.paths, file), write }
}

/// The beginning of step `k`: the run is over, well, when the plan has no
/// such step; else the step's first file is opened, which for a restore is
/// the file that is read.
pub open spec fn enter_step(s: SessionView, k: int) -> TurnView {
    if k < 0 || k >= s.plan.len() {
        TurnView::Done(Ok(()))
    } else {
        match s.plan[k].access {
            AccessView::Write(_) => TurnView::Ask(
                SessionView { step: k, pending: Pending::Open, ..s },
                open_request(s, s.plan[k].file, true),
            ),
            AccessView::Show(_) => TurnView::Ask(
                SessionView { step: k, pending: Pending::Open, ..s },
                open_request(s, s.plan[k].file, false),
            ),
            AccessView::Restore(source) => TurnView::Ask(
                SessionView { step: k, pending: Pending::OpenSource, ..s },
                open_request(s, source, false),
            ),
        }
    }
}

/// What follows when `file` could not be opened: an optional step is passed
/// over, and the user is told unless the step only shows the file; a
/// required one ends the run.
pub open spec fn on_unavailable(s: SessionView, file: ControlFile) -> TurnView
    recommends
        0 <= s.step < s.plan.len(),
{
    if s.plan[s.step].optional {
        TurnView::Ask(
            SessionView { pending: Pending::Skip, ..s },
            RequestView::Skip { file, announce: !(s.plan[s.step].access is Show) },
        )
    } else {
        TurnView::Done(Err(ApplyError::ControlFileUnavailable(file)))
    }
}

/// The write of payload `j` of the step, or the next step when the step has
/// no such payload.
pub open spec fn write_or_leave(s: SessionView, j: int) -> TurnView
    recommends
        0 <= s.step < s.plan.len(),
{
    match s.plan[s.step].access {
        AccessView::Write(payloads) => if 0 <= j < payloads.len() && j <= usize::MAX {
            TurnView::Ask(
                SessionView { pending: Pending::Write(j as usize), ..s },
                RequestView::Write { file: s.plan[s.step].file, payload: payloads[j] },
            )
        } else {
            enter_step(s, s.step + 1)
        },
        _ => enter_step(s, s.step + 1),
    }
}

/// What a session does with the reply to its pending request.
///
/// Any reply but `Done` to an `Open` counts as the file being unavailable,
/// any reply but `Done` to a `Write` as a failed write, and any reply but a
/// line to a `ReadLine` as a failed read. Once a step's file is open its
/// payloads are written in order, then the next step begins.
pub open spec fn session_step(s: SessionView, reply: ReplyView) -> TurnView {
    if s.step < 0 || s.step >= s.plan.len() {
        TurnView::Done(Ok(()))
    } else {
        let step = s.plan[s.step];
        let source = match step.access {
            AccessView::Restore(source) => source,
            _ => step.file,
        };
        match s.pending {
            Pending::Open => if reply == ReplyView::Done {
                match step.access {
                    AccessView::Show(layout) => TurnView::Ask(
                        SessionView { pending: Pending::Show, ..s },
                        RequestView::Show { file: step.file, layout },
                    ),
                    _ => write_or_leave(s, 0),
                }
            } else {
                on_unavailable(s, step.file)
            },
            Pending::Write(j) => if reply == ReplyView::Done {
                write_or_leave(s, j + 1)
            } else {
                TurnView::Done(Err(ApplyError::WriteFailed(step.file, j)))
            },
            Pending::OpenSource => if reply == ReplyView::Done {
                TurnView::Ask(
                    SessionView { pending: Pending::ReadLine, ..s },
                    RequestView::ReadLine { file: source },
                )
            } else {
                on_unavailable(s, source)
            },
            Pending::ReadLine => match reply {
                ReplyView::Line(line) => TurnView::Ask(
                    SessionView { pending: Pending::OpenTarget, line, ..s },
                    open_request(s, step.file, true),
                ),
                _ => TurnView::Done(Err(ApplyError::ReadFailed(source))),
            },
            Pending::OpenTarget => if reply == ReplyView::Done {
                TurnView::Ask(
                    SessionView { pending: Pending::WriteLine, ..s },
                    RequestView::Write { file: step.file, payload: PayloadView::Text(s.line) },
                )
            } else {
                on_unavailable(s, step.file)
            },
            Pending::WriteLine => if reply == ReplyView::Done {
                enter_step(s, s.step + 1)
            } else {
                TurnView::Done(Err(ApplyError::WriteFailed(step.file, 0)))
            },
            Pending::Show => if reply == ReplyView::Done {
                enter_step(s, s.step + 1)
            } else {
                TurnView::Done(Err(ApplyError::ReadFailed(step.file)))
            },
            Pending::Skip => enter_step(s, s.step + 1),
        }
    }
}

/// The session before its first step.
pub open spec fn fresh_session(paths: Paths, plan: Seq<StepView>) -> SessionView {
    SessionView { paths, plan, step: 0, pending: Pending::Open, line: Seq::empty() }
}

/// The requests of a run: what the session asks, one request after
/// another, while the replies come back in the order of `replies`. The run
/// is followed until it is over or the replies are used up.
pub open spec fn run_requests(turn: TurnView, replies: Seq<ReplyView>) -> Seq<RequestView>
    decreases replies.len(),
{
    match turn {
        TurnView::Done(_) => Seq::empty(),
        TurnView::Ask(s, request) => if replies.len() == 0 {
            seq![request]
        } else {
            seq![request] + run_requests(session_step(s, replies[0]), replies.drop_first())
        },
    }
}

/// How a run ended, or `None` while the replies have not brought it to its
/// end.
pub open spec fn run_result(turn: TurnView, replies: Seq<ReplyView>) -> Option<
    Result<(), ApplyError>,
>
    decreases replies.len(),
{
    match turn {
        TurnView::Done(result) => Some(result),
        TurnView::Ask(s, _) => if replies.len() == 0 {
            None
        } else {
            run_result(session_step(s, replies[0]), replies.drop_first())
        },
    }
}

/// The file that a request is about.
pub open spec fn request_file(request: RequestView) -> ControlFile {
    match request {
        RequestView::Open { file, .. } => file,
        RequestView::Write { file, .. } => file,
        RequestView::ReadLine { file } => file,
        RequestView::Show { file, .. } => file,
        RequestView::Skip { file, .. } => file,
    }
}

/// A copy of a payload.
fn payload_copy(p: &Payload) -> (r: Payload)
    ensures
        r@ == p@,
{
    match p {
        Payload::Text(text) => Payload::Text(text_copy(text)),
        Payload::Number(n) => Payload::Number(*n),
        Payload::NumberLine(n) => Payload::NumberLine(*n),
        Payload::Command(c) => Payload::Command(*c),
    }
}

impl Session {
    /// Begins the run of `plan` on the device at `paths`.
    pub fn start(paths: ResolvedDevicePaths, plan: Vec<Step>) -> (turn: SessionTurn)
        ensures
            turn@ == enter_step(fresh_session(paths@, plan_view(plan@)), 0),
    {
        let session = Session {
            paths,
            plan,
            step: 0,
            pending: Pending::Open,
            line: String::new(),
        };
        session.enter(0)
    }

    fn enter(self, k: usize) -> (turn: SessionTurn)
        ensures
            turn@ == enter_step(self@, k as int),
    {
        if k >= self.plan.len() {
            return SessionTurn::Done(Ok(()));
        }
        let file = self.plan[k].file;
        let (target, write, pending) = match &self.plan[k].access {
            Access::Write(_) => (file, true, Pending::Open),
            Access::Show(_) => (file, false, Pending::Open),
            Access::Restore(source) => (*source, false, Pending::OpenSource),
        };
        let path = control_file_path(&self.paths, target);
        SessionTurn::Ask(
            Session { paths: self.paths, plan: self.plan, step: k, pending, line: self.line },
            Request::Open { file: target, path, write },
        )
    }

    fn unavailable(self, file: ControlFile) -> (turn: SessionTurn)
        requires
            self@.step < self@.plan.len(),
        ensures
            turn@ == on_unavailable(self@, file),
    {
        if self.plan[self.step].optional {
            let announce = match &self.plan[self.step].access {
                Access::Show(_) => false,
                _ => true,
            };
            SessionTurn::Ask(
                Session {
                    paths: self.paths,
                    plan: self.plan,
                    step: self.step,
                    pending: Pending::Skip,
                    line: self.line,
                },
                Request::Skip { file, announce },
            )
        } else {
            SessionTurn::Done(Err(ApplyError::ControlFileUnavailable(file)))
        }
    }

    fn write_next(self, j: usize) -> (turn: SessionTurn)
        requires
            self@.step < self@.plan.len(),
        ensures
            turn@ == write_or_leave(self@, j as int),
    {
        let file = self.plan[self.step].file;
        let payload = match &self.plan[self.step].access {
            Access::Write(payloads) => if j < payloads.len() {
                Some(payload_copy(&payloads[j]))
            } else {
                None
            },
            _ => None,
        };
        match payload {
            Some(payload) => SessionTurn::Ask(
                Session {
                    paths: self.paths,
                    plan: self.plan,
                    step: self.step,
                    pending: Pending::Write(j),
                    line: self.line,
                },
                Request::Write { file, payload },
            ),
            None => {
                let count: usize = self.plan.len();
                assert(self.step < count);
                let next: usize = self.step + 1;
                self.enter(next)
            },
        }
    }

    /// Takes the reply to the last request and says what comes next.
    pub fn advance(self, reply: Reply) -> (turn: SessionTurn)
        ensures
            turn@ == session_step(self@, reply@),
    {
        if self.step >= self.plan.len() {
            return SessionTurn::Done(Ok(()));
        }
        let file = self.plan[self.step].file;
        let source = match &self.plan[self.step].access {
            Access::Restore(source) => *source,
            _ => file,
        };
        let layout = match &self.plan[self.step].access {
            Access::Show(layout) => Some(*layout),
            _ => None,
        };
        let next: usize = self.step + 1;
        let done = match &reply {
            Reply::Done => true,
            _ => false,
        };
        match self.pending {
            Pending::Open => {
                if done {
                    match layout {
                        Some(layout) => SessionTurn::Ask(
                            Session {
                                paths: self.paths,
                                plan: self.plan,
                                step: self.step,
                                pending: Pending::Show,
                                line: self.line,
                            },
                            Request::Show { file, layout },
                        ),
                        None => self.write_next(0),
                    }
                } else {
                    self.unavailable(file)
                }
            },
            Pending::Write(j) => {
                if done {
                    if j < usize::MAX {
                        self.write_next(j + 1)
                    } else {
                        self.enter(next)
                    }
                } else {
                    SessionTurn::Done(Err(ApplyError::WriteFailed(file, j)))
                }
            },
            Pending::OpenSource => {
                if done {
                    SessionTurn::Ask(
                        Session {
                            paths: self.paths,
                            plan: self.plan,
                            step: self.step,
                            pending: Pending::ReadLine,
                            line: self.line,
                        },
                        Request::ReadLine { file: source },
                    )
                } else {
                    self.unavailable(source)
                }
            },
            Pending::ReadLine => {
                match reply {
                    Reply::Line(line) => {
                        let path = control_file_path(&self.paths, file);
                        SessionTurn::Ask(
                            Session {
                                paths: self.paths,
                                plan: self.plan,
                                step: self.step,
                                pending: Pending::OpenTarget,
                                line,
                            },
                            Request::Open { file, path, write: true },
                        )
                    },
                    _ => SessionTurn::Done(Err(ApplyError::ReadFailed(source))),
                }
            },
            Pending::OpenTarget => {
                if done {
                    let payload = Payload::Text(text_copy(&self.line));
                    SessionTurn::Ask(
                        Session {
                            paths: self.paths,
                            plan: self.plan,
                            step: self.step,
                            pending: Pending::WriteLine,
                            line: self.line,
                        },
                        Request::Write { file, payload },
                    )
                } else {
                    self.unavailable(file)
                }
            },
            Pending::WriteLine => {
                if done {
                    self.enter(next)
                } else {
                    SessionTurn::Done(Err(ApplyError::WriteFailed(file, 0)))
                }
            },
            Pending::Show => {
                if done {
                    self.enter(next)
                } else {
                    SessionTurn::Done(Err(ApplyError::ReadFailed(file)))
                }
            },
            Pending::Skip => self.enter(next),
        }
    }
}

} // verus!
