//! The websocket session: one connection first learns its device identifier
//! from a text frame, then accepts binary frames as images, until it closes.
//! The connection itself is driven from outside; here is what to do with
//! each thing it delivers.

use std::ops::ControlFlow;
use vstd::prelude::*;
use vstd::string::*;

verus! {

/// The reason a peer gave for closing.
#[derive(Clone, Debug, PartialEq, Eq)]
pub struct CloseInfo {
    pub code: u16,
    pub reason: String,
}

/// One websocket message.
#[derive(Clone, Debug, PartialEq, Eq)]
pub enum Frame {
    Text(String),
    Binary(Vec<u8>),
    Ping(Vec<u8>),
    Pong(Vec<u8>),
    Close(Option<CloseInfo>),
}

/// A message as plain values.
pub enum FrameView {
    Text(Seq<char>),
    Binary(Seq<u8>),
    Ping(Seq<u8>),
    Pong(Seq<u8>),
    Close(Option<(u16, Seq<char>)>),
}

impl View for Frame {
    type V = FrameView;

    open spec fn view(&self) -> FrameView {
        match *self {
            Frame::Text(t) => FrameView::Text(t@),
            Frame::Binary(d) => FrameView::Binary(d@),
            Frame::Ping(d) => FrameView::Ping(d@),
            Frame::Pong(d) => FrameView::Pong(d@),
            Frame::Close(Some(info)) => FrameView::Close(Some((info.code, info.reason@))),
            Frame::Close(None) => FrameView::Close(None),
        }
    }
}

/// What one wait on the connection delivers.
#[derive(Clone, Debug, PartialEq, Eq)]
pub enum Inbound {
    /// A message arrived.
    Frame(Frame),
    /// The connection reported a fault: the peer is gone.
    Fault,
    /// The stream of messages has ended.
    End,
}

/// An arrival as plain values.
pub enum InboundView {
    Frame(FrameView),
    Fault,
    End,
}

impl View for Inbound {
    type V = InboundView;

    open spec fn view(&self) -> InboundView {
        match *self {
            Inbound::Frame(f) => InboundView::Frame(f@),
            Inbound::Fault => InboundView::Fault,
            Inbound::End => InboundView::End,
        }
    }
}

/// The state of one connection.
#[derive(Clone, Debug, PartialEq, Eq)]
pub enum Session {
    /// The first application frame is still to come.
    AwaitingIdentifier,
    /// Binary frames are stored for `device`.
    Active { device: String },
    /// The handler returns.
    Closed,
}

/// A state as plain values.
pub enum SessionView {
    AwaitingIdentifier,
    Active { device: Seq<char> },
    Closed,
}

impl View for Session {
    type V = SessionView;

    open spec fn view(&self) -> SessionView {
        match *self {
            Session::AwaitingIdentifier => SessionView::AwaitingIdentifier,
            Session::Active { device } => SessionView::Active { device: device@ },
            Session::Closed => SessionView::Closed,
        }
    }
}

/// What the handler records locally about an arrival.
#[derive(Clone, Copy, Debug, PartialEq, Eq, Structural)]
pub enum Note {
    /// A text frame.
    Text,
    /// A binary frame, handed on to be stored.
    Binary,
    /// A ping; the transport answers it.
    Ping,
    /// A pong.
    Pong,
    /// A close frame that gives a code and a reason.
    CloseWithReason,
    /// A close frame that gives none.
    CloseWithoutReason,
    /// Anything but text or close where the identifier was due.
    Unexpected,
    /// The peer disconnected abruptly.
    Disconnected,
    /// The stream of messages ended.
    Ended,
    /// Something arrived for a session that is closed.
    Ignored,
}

/// One image to store: the payload of a binary frame, for the session's
/// device.
#[derive(Clone, Debug, PartialEq, Eq)]
pub struct Job {
    pub device: String,
    pub data: Vec<u8>,
}

/// A job as plain values.
pub struct JobView {
    pub device: Seq<char>,
    pub data: Seq<u8>,
}

impl View for Job {
    type V = JobView;

    open spec fn view(&self) -> JobView {
        JobView { device: self.device@, data: self.data@ }
    }
}

/// The outcome of one arrival.
#[derive(Clone, Debug, PartialEq, Eq)]
pub struct Step {
    pub next: Session,
    pub job: Option<Job>,
    pub note: Note,
}

/// What is recorded about a frame, whatever the state.
pub open spec fn note_of_frame(frame: FrameView) -> Note {
    match frame {
        FrameView::Text(_) => Note::Text,
        FrameView::Binary(_) => Note::Binary,
        FrameView::Ping(_) => Note::Ping,
        FrameView::Pong(_) => Note::Pong,
        FrameView::Close(Some(_)) => Note::CloseWithReason,
        FrameView::Close(None) => Note::CloseWithoutReason,
    }
}

/// The state after an arrival.
pub open spec fn next_session(state: SessionView, arrival: InboundView) -> SessionView {
    match state {
        SessionView::Closed => SessionView::Closed,
        SessionView::AwaitingIdentifier => match arrival {
            InboundView::Frame(FrameView::Text(text)) => SessionView::Active { device: text },
            InboundView::Frame(_) => SessionView::Closed,
            InboundView::Fault => SessionView::Closed,
            InboundView::End => SessionView::Active { device: "undefined"@ },
        },
        SessionView::Active { device } => match arrival {
            InboundView::Frame(FrameView::Close(_)) => SessionView::Closed,
            InboundView::Frame(_) => SessionView::Active { device },
            InboundView::Fault => SessionView::Closed,
            InboundView::End => SessionView::Closed,
        },
    }
}

/// The image to store on an arrival, if any: only a binary frame in an
/// active session gives one.
pub open spec fn job_of(state: SessionView, arrival: InboundView) -> Option<JobView> {
    match (state, arrival) {
        (SessionView::Active { device }, InboundView::Frame(FrameView::Binary(data))) => Some(
            JobView { device, data },
        ),
        _ => None,
    }
}

/// What is recorded about an arrival.
pub open spec fn note_of(state: SessionView, arrival: InboundView) -> Note {
    match state {
        SessionView::Closed => Note::Ignored,
        SessionView::AwaitingIdentifier => match arrival {
            InboundView::Frame(FrameView::Text(_)) => Note::Text,
            InboundView::Frame(FrameView::Close(Some(_))) => Note::CloseWithReason,
            InboundView::Frame(FrameView::Close(None)) => Note::CloseWithoutReason,
            InboundView::Frame(_) => Note::Unexpected,
            InboundView::Fault => Note::Disconnected,
            InboundView::End => Note::Ended,
        },
        SessionView::Active { device } => match arrival {
            InboundView::Frame(frame) => note_of_frame(frame),
            InboundView::Fault => Note::Disconnected,
            InboundView::End => Note::Ended,
        },
    }
}

/// The state after the liveness probe was sent on a fresh connection: where
/// the send failed the connection is unusable and the session is closed.
pub fn open_session(probe_sent: bool) -> (state: Session)
    ensures
        state@ == (if probe_sent {
            SessionView::AwaitingIdentifier
        } else {
            SessionView::Closed
        }),
{
    if probe_sent {
        Session::AwaitingIdentifier
    } else {
        Session::Closed
    }
}

/// Reads the device identifier from the first frame: a text frame gives it,
/// anything else ends the session.
pub fn get_text(msg: Frame) -> (out: (ControlFlow<(), String>, Note))
    ensures
        match msg@ {
            FrameView::Text(text) => out.0 matches ControlFlow::Continue(id) && id@ == text,
            _ => out.0 is Break,
        },
        out.1 == note_of(SessionView::AwaitingIdentifier, InboundView::Frame(msg@)),
{
    match msg {
        Frame::Text(text) => (ControlFlow::Continue(text), Note::Text),
        Frame::Close(reason) => {
            let note = if reason.is_some() {
                Note::CloseWithReason
            } else {
                Note::CloseWithoutReason
            };
            (ControlFlow::Break(()), note)
        },
        _ => (ControlFlow::Break(()), Note::Unexpected),
    }
}

/// What a frame asks of an active session.
#[derive(Debug)]
pub struct Reaction {
    /// Whether the session goes on.
    pub flow: ControlFlow<(), ()>,
    /// The payload to store, where the frame was binary.
    pub payload: Option<Vec<u8>>,
    pub note: Note,
}

/// Handles one frame of an active session: a binary frame is to be stored,
/// a close frame ends the session, every other frame is only recorded.
pub fn process_message(msg: Frame) -> (out: Reaction)
    ensures
        out.flow is Break <==> msg@ is Close,
        match msg@ {
            FrameView::Binary(data) => out.payload matches Some(p) && p@ == data,
            _ => out.payload is None,
        },
        out.note == note_of_frame(msg@),
{
    match msg {
        Frame::Text(_) => Reaction { flow: ControlFlow::Continue(()), payload: None, note: Note::Text },
        Frame::Binary(data) => Reaction {
            flow: ControlFlow::Continue(()),
            payload: Some(data),
            note: Note::Binary,
        },
        Frame::Close(reason) => {
            let note = if reason.is_some() {
                Note::CloseWithReason
            } else {
                Note::CloseWithoutReason
            };
            Reaction { flow: ControlFlow::Break(()), payload: None, note }
        },
        Frame::Pong(_) => Reaction { flow: ControlFlow::Continue(()), payload: None, note: Note::Pong },
        Frame::Ping(_) => Reaction { flow: ControlFlow::Continue(()), payload: None, note: Note::Ping },
    }
}

/// The view of an optional job.
pub open spec fn job_view(job: Option<Job>) -> Option<JobView> {
    match job {
        Some(j) => Some(j@),
        None => None,
    }
}

/// Moves a session by one arrival: the next state, the image to store if
/// the arrival brought one, and what to record.
pub fn advance(state: Session, arrival: Inbound) -> (out: Step)
    ensures
        out.next@ == next_session(state@, arrival@),
        job_view(out.job) == job_of(state@, arrival@),
        out.note == note_of(state@, arrival@),
{
    match state {
        Session::Closed => Step { next: Session::Closed, job: None, note: Note::Ignored },
        Session::AwaitingIdentifier => match arrival {
            Inbound::Frame(frame) => {
                let (flow, note) = get_text(frame);
                match flow {
                    ControlFlow::Continue(device) => Step {
                        next: Session::Active { device },
                        job: None,
                        note,
                    },
                    ControlFlow::Break(_) => Step { next: Session::Closed, job: None, note },
                }
            },
            Inbound::Fault => Step { next: Session::Closed, job: None, note: Note::Disconnected },
            Inbound::End => Step {
                next: Session::Active { device: String::from_str("undefined") },
                job: None,
                note: Note::Ended,
            },
        },
        Session::Active { device } => match arrival {
            Inbound::Frame(frame) => {
                let reaction = process_message(frame);
                let job = match reaction.payload {
                    Some(data) => Some(Job { device: device.clone(), data }),
                    None => None,
                };
                let next = match reaction.flow {
                    ControlFlow::Continue(_) => Session::Active { device },
                    ControlFlow::Break(_) => Session::Closed,
                };
                Step { next, job, note: reaction.note }
            },
            Inbound::Fault => Step { next: Session::Closed, job: None, note: Note::Disconnected },
            Inbound::End => Step { next: Session::Closed, job: None, note: Note::Ended },
        },
    }
}

/// The state after a run of arrivals, one after the other.
pub open spec fn session_after(state: SessionView, arrivals: Seq<InboundView>) -> SessionView
    decreases arrivals.len(),
{
    if arrivals.len() == 0 {
        state
    } else {
        next_session(session_after(state, arrivals.drop_last()), arrivals.last())
    }
}

/// The images stored over a run of arrivals, in order.
pub open spec fn jobs_over(state: SessionView, arrivals: Seq<InboundView>) -> Seq<JobView>
    decreases arrivals.len(),
{
    if arrivals.len() == 0 {
        Seq::<JobView>::empty()
    } else {
        let earlier = jobs_over(state, arrivals.drop_last());
        match job_of(session_after(state, arrivals.drop_last()), arrivals.last()) {
            Some(job) => earlier.push(job),
            None => earlier,
        }
    }
}

/// A closed session stays closed and stores nothing, whatever arrives.
pub proof fn lemma_closed_is_terminal(arrival: InboundView)
    ensures
        next_session(SessionView::Closed, arrival) == SessionView::Closed,
        job_of(SessionView::Closed, arrival) is None,
{
}

/// No arrival takes a session back to awaiting its identifier, and
/// whatever arrives while it waits ends the wait.
pub proof fn lemma_identifier_is_awaited_once(state: SessionView, arrival: InboundView)
    ensures
        !(next_session(state, arrival) is AwaitingIdentifier),
{
}

/// An active session keeps its identifier for as long as it is active.
pub proof fn lemma_identifier_is_kept(device: Seq<char>, arrival: InboundView)
    ensures
        next_session(SessionView::Active { device }, arrival) == SessionView::Closed
            || next_session(SessionView::Active { device }, arrival) == (SessionView::Active {
            device,
        }),
{
}

/// Nothing is stored unless the session is active and the frame is binary;
/// then exactly the frame's payload is stored, for the session's
/// identifier, and the session goes on.
pub proof fn lemma_only_binary_frames_are_stored(state: SessionView, arrival: InboundView)
    ensures
        job_of(state, arrival) matches Some(job) ==> {
            &&& state == (SessionView::Active { device: job.device })
            &&& arrival == InboundView::Frame(FrameView::Binary(job.data))
            &&& next_session(state, arrival) == state
        },
        state is AwaitingIdentifier ==> job_of(state, arrival) is None,
{
}

/// Over any run of arrivals: once closed, a session is closed at the end
/// and has stored nothing since.
pub proof fn lemma_closed_for_good(arrivals: Seq<InboundView>)
    ensures
        session_after(SessionView::Closed, arrivals) == SessionView::Closed,
        jobs_over(SessionView::Closed, arrivals).len() == 0,
    decreases arrivals.len(),
{
    if arrivals.len() > 0 {
        lemma_closed_for_good(arrivals.drop_last());
    }
}

/// Over any run of arrivals from an active session, every image is stored
/// for the one identifier the session has.
pub proof fn lemma_jobs_carry_the_identifier(device: Seq<char>, arrivals: Seq<InboundView>)
    ensures
        session_after(SessionView::Active { device }, arrivals) == SessionView::Closed
            || session_after(SessionView::Active { device }, arrivals) == (SessionView::Active {
            device,
        }),
        forall|k: int|
            0 <= k < jobs_over(SessionView::Active { device }, arrivals).len()
                ==> (#[trigger] jobs_over(SessionView::Active { device }, arrivals)[k]).device
                == device,
    decreases arrivals.len(),
{
    let start = SessionView::Active { device };
    if arrivals.len() > 0 {
        let earlier = arrivals.drop_last();
        lemma_jobs_carry_the_identifier(device, earlier);
        if session_after(start, earlier) == SessionView::Closed {
            lemma_closed_is_terminal(arrivals.last());
        }
        let jobs = jobs_over(start, arrivals);
        assert forall|k: int| 0 <= k < jobs.len() implies (#[trigger] jobs[k]).device
            == device by {
            if k < jobs_over(start, earlier).len() {
                assert(jobs[k] == jobs_over(start, earlier)[k]);
            }
        }
    }
}

} // verus!
