//! The lock-step protocol between the fingerprint orchestrator and the
//! isolated query worker: the messages, the worker's transitions and the
//! orchestrator's session.
use vstd::prelude::*;
use crate::fingerprint::{
    fingerprint_from_records, fingerprint_spec, fingerprint_view, is_selected, HardwareRecords,
    MachineIdError, MachineIdFactor,
};
use crate::records::{BaseBoard, DiskDrive, DiskPartition, Processor, VideoController};

verus! {

/// A request to the worker.
#[derive(Debug, Clone, Copy, PartialEq, Eq, Structural)]
pub enum QueryRequest {
    GetBaseboard,
    GetProcessor,
    GetDiskDrives,
    GetDiskPartitions,
    GetVideoControllers,
    Shutdown,
}

/// The worker's answer to one request.
#[derive(Debug, Clone)]
pub enum QueryResponse {
    Baseboard(Option<BaseBoard>),
    Processor(Option<Processor>),
    DiskDrives(Vec<DiskDrive>),
    DiskPartitions(Vec<DiskPartition>),
    VideoControllers(Vec<VideoController>),
    Error(MachineIdError),
}

impl QueryResponse {
    /// The answer to `GetBaseboard`: the first board record, if any.
    pub fn baseboard_from(rows: Vec<BaseBoard>) -> (r: QueryResponse)
        ensures
            r == QueryResponse::Baseboard(
                if rows@.len() > 0 {
                    Some(rows@[0])
                } else {
                    None
                },
            ),
    {
        let mut rows = rows;
        if rows.len() > 0 {
            QueryResponse::Baseboard(Some(rows.remove(0)))
        } else {
            QueryResponse::Baseboard(None)
        }
    }

    /// The answer to `GetProcessor`: the first processor record, if any.
    pub fn processor_from(rows: Vec<Processor>) -> (r: QueryResponse)
        ensures
            r == QueryResponse::Processor(
                if rows@.len() > 0 {
                    Some(rows@[0])
                } else {
                    None
                },
            ),
    {
        let mut rows = rows;
        if rows.len() > 0 {
            QueryResponse::Processor(Some(rows.remove(0)))
        } else {
            QueryResponse::Processor(None)
        }
    }
}

/// The worker's lifecycle.
#[derive(Debug, Clone, Copy, PartialEq, Eq, Structural)]
pub enum WorkerState {
    Connecting,
    Ready,
    Busy(QueryRequest),
    Sending,
    Terminated,
}

/// What happened to the worker since its last step.
#[derive(Debug)]
pub enum WorkerEvent {
    /// The backend connection was set up, or failed with a message.
    Connected(Result<(), String>),
    /// A request arrived, or the request channel was closed.
    Received(Option<QueryRequest>),
    /// The backend query finished, with its response or an error message.
    QueryDone(Result<QueryResponse, String>),
    /// A response was handed to the channel, or the channel was gone.
    Sent(bool),
}

/// What the worker does next.
#[derive(Debug, Clone)]
pub enum WorkerAction {
    Wait,
    RunQuery(QueryRequest),
    Send(QueryResponse),
    Exit,
}

pub open spec fn query_label(r: QueryRequest) -> Seq<char> {
    match r {
        QueryRequest::GetBaseboard => "Baseboard"@,
        QueryRequest::GetProcessor => "Processor"@,
        QueryRequest::GetDiskDrives => "DiskDrives"@,
        QueryRequest::GetDiskPartitions => "DiskPartitions"@,
        QueryRequest::GetVideoControllers => "VideoControllers"@,
        QueryRequest::Shutdown => "Shutdown"@,
    }
}

/// The message of a failed query.
pub open spec fn query_failure_text(r: QueryRequest, m: Seq<char>) -> Seq<char> {
    query_label(r) + " query failed: "@ + m
}

pub open spec fn init_failure_text(m: Seq<char>) -> Seq<char> {
    "WMI worker failed to initialize: "@ + m
}

/// Whether `resp` is the answer to request `r` whose query ended in `o`.
pub open spec fn response_for(
    r: QueryRequest,
    o: Result<QueryResponse, String>,
    resp: QueryResponse,
) -> bool {
    match o {
        Ok(x) => resp == x,
        Err(m) => match resp {
            QueryResponse::Error(MachineIdError::QueryError(t)) => t@ == query_failure_text(r, m@),
            _ => false,
        },
    }
}

/// One step of the worker: from state `s` and event `e` to state `s2` and
/// action `a`.
pub open spec fn worker_transition(
    s: WorkerState,
    e: WorkerEvent,
    s2: WorkerState,
    a: WorkerAction,
) -> bool {
    match s {
        WorkerState::Connecting => match e {
            WorkerEvent::Connected(Ok(())) => s2 == WorkerState::Ready && a == WorkerAction::Wait,
            WorkerEvent::Connected(Err(m)) => s2 == WorkerState::Terminated && match a {
                WorkerAction::Send(
                    QueryResponse::Error(MachineIdError::WMIInitialization(t)),
                ) => t@ == init_failure_text(m@),
                _ => false,
            },
            _ => s2 == s && a == WorkerAction::Wait,
        },
        WorkerState::Ready => match e {
            WorkerEvent::Received(None) => s2 == WorkerState::Terminated && a == WorkerAction::Exit,
            WorkerEvent::Received(Some(QueryRequest::Shutdown)) => s2 == WorkerState::Terminated
                && a == WorkerAction::Exit,
            WorkerEvent::Received(Some(r)) => s2 == WorkerState::Busy(r) && a
                == WorkerAction::RunQuery(r),
            _ => s2 == s && a == WorkerAction::Wait,
        },
        WorkerState::Busy(r) => match e {
            WorkerEvent::QueryDone(o) => s2 == WorkerState::Sending && match a {
                WorkerAction::Send(resp) => response_for(r, o, resp),
                _ => false,
            },
            _ => s2 == s && a == WorkerAction::Wait,
        },
        WorkerState::Sending => match e {
            WorkerEvent::Sent(true) => s2 == WorkerState::Ready && a == WorkerAction::Wait,
            WorkerEvent::Sent(false) => s2 == WorkerState::Terminated && a == WorkerAction::Exit,
            _ => s2 == s && a == WorkerAction::Wait,
        },
        WorkerState::Terminated => s2 == WorkerState::Terminated && a == WorkerAction::Exit,
    }
}

fn query_label_text(r: QueryRequest) -> (t: &'static str)
    ensures
        t@ == query_label(r),
{
    match r {
        QueryRequest::GetBaseboard => "Baseboard",
        QueryRequest::GetProcessor => "Processor",
        QueryRequest::GetDiskDrives => "DiskDrives",
        QueryRequest::GetDiskPartitions => "DiskPartitions",
        QueryRequest::GetVideoControllers => "VideoControllers",
        QueryRequest::Shutdown => "Shutdown",
    }
}

/// The response that reports a failed query.
pub fn query_failure(r: QueryRequest, m: &str) -> (resp: QueryResponse)
    ensures
        match resp {
            QueryResponse::Error(MachineIdError::QueryError(t)) => t@ == query_failure_text(r, m@),
            _ => false,
        },
{
    let mut t = query_label_text(r).to_owned();
    t.append(" query failed: ");
    t.append(m);
    QueryResponse::Error(MachineIdError::QueryError(t))
}

/// Decides the worker's next state and action.
pub fn worker_step(s: WorkerState, e: WorkerEvent) -> (r: (WorkerState, WorkerAction))
    ensures
        worker_transition(s, e, r.0, r.1),
{
    match s {
        WorkerState::Connecting => match e {
            WorkerEvent::Connected(Ok(())) => (WorkerState::Ready, WorkerAction::Wait),
            WorkerEvent::Connected(Err(m)) => {
                let mut t = "WMI worker failed to initialize: ".to_owned();
                t.append(m.as_str());
                (
                    WorkerState::Terminated,
                    WorkerAction::Send(QueryResponse::Error(MachineIdError::WMIInitialization(t))),
                )
            },
            _ => (s, WorkerAction::Wait),
        },
        WorkerState::Ready => match e {
            WorkerEvent::Received(None) => (WorkerState::Terminated, WorkerAction::Exit),
            WorkerEvent::Received(Some(QueryRequest::Shutdown)) => (
                WorkerState::Terminated,
                WorkerAction::Exit,
            ),
            WorkerEvent::Received(Some(r)) => (WorkerState::Busy(r), WorkerAction::RunQuery(r)),
            _ => (s, WorkerAction::Wait),
        },
        WorkerState::Busy(r) => match e {
            WorkerEvent::QueryDone(Ok(x)) => (WorkerState::Sending, WorkerAction::Send(x)),
            WorkerEvent::QueryDone(Err(m)) => (
                WorkerState::Sending,
                WorkerAction::Send(query_failure(r, m.as_str())),
            ),
            _ => (s, WorkerAction::Wait),
        },
        WorkerState::Sending => match e {
            WorkerEvent::Sent(true) => (WorkerState::Ready, WorkerAction::Wait),
            WorkerEvent::Sent(false) => (WorkerState::Terminated, WorkerAction::Exit),
            _ => (s, WorkerAction::Wait),
        },
        WorkerState::Terminated => (WorkerState::Terminated, WorkerAction::Exit),
    }
}

/// The queries that a selection needs before the system disk is known, in
/// the order in which they are sent.
pub open spec fn initial_plan(sel: Seq<MachineIdFactor>) -> Seq<QueryRequest> {
    (if sel.contains(MachineIdFactor::Baseboard) {
        seq![QueryRequest::GetBaseboard]
    } else {
        Seq::empty()
    }) + (if sel.contains(MachineIdFactor::Processor) {
        seq![QueryRequest::GetProcessor]
    } else {
        Seq::empty()
    }) + (if sel.contains(MachineIdFactor::DiskDrivers) {
        seq![QueryRequest::GetDiskPartitions]
    } else {
        Seq::empty()
    }) + (if sel.contains(MachineIdFactor::VideoControllers) {
        seq![QueryRequest::GetVideoControllers]
    } else {
        Seq::empty()
    })
}

pub open spec fn no_records(r: HardwareRecords) -> bool {
    r.board is None && r.processor is None && r.partitions@.len() == 0 && r.drives@.len() == 0
        && r.video_controllers@.len() == 0
}

/// The orchestrator's side of one fingerprint computation: the queries
/// still to send, the records received so far, and the first failure.
#[derive(Debug)]
pub struct MachineIdSession {
    pub selected: Vec<MachineIdFactor>,
    pub pending: Vec<QueryRequest>,
    pub records: HardwareRecords,
    pub failure: Option<MachineIdError>,
}

/// The session `t` that follows `s` once the worker answered `resp` to the
/// request at the head of `s.pending`.
pub open spec fn accepted(s: MachineIdSession, resp: QueryResponse, t: MachineIdSession) -> bool {
    let req = s.pending@[0];
    let rest = s.pending@.drop_first();
    &&& t.selected@ == s.selected@
    &&& match resp {
        QueryResponse::Error(e) => t.failure == Some(e) && t.pending@ == s.pending@ && t.records
            == s.records,
        QueryResponse::Baseboard(b) => t.failure is None && t.pending@ == rest && if req
            == QueryRequest::GetBaseboard {
            t.records == (HardwareRecords { board: b, ..s.records })
        } else {
            t.records == s.records
        },
        QueryResponse::Processor(p) => t.failure is None && t.pending@ == rest && if req
            == QueryRequest::GetProcessor {
            t.records == (HardwareRecords { processor: p, ..s.records })
        } else {
            t.records == s.records
        },
        QueryResponse::DiskPartitions(p) => t.failure is None && if req
            == QueryRequest::GetDiskPartitions {
            &&& t.records == (HardwareRecords { partitions: p, ..s.records })
            &&& t.pending@ == if p@.len() > 0 {
                seq![QueryRequest::GetDiskDrives] + rest
            } else {
                rest
            }
        } else {
            t.records == s.records && t.pending@ == rest
        },
        QueryResponse::DiskDrives(d) => t.failure is None && t.pending@ == rest && if req
            == QueryRequest::GetDiskDrives {
            t.records == (HardwareRecords { drives: d, ..s.records })
        } else {
            t.records == s.records
        },
        QueryResponse::VideoControllers(g) => t.failure is None && t.pending@ == rest && if req
            == QueryRequest::GetVideoControllers {
            t.records == (HardwareRecords { video_controllers: g, ..s.records })
        } else {
            t.records == s.records
        },
    }
}

impl MachineIdSession {
    /// Starts a session for the selected categories.
    pub fn new(selected: Vec<MachineIdFactor>) -> (s: MachineIdSession)
        ensures
            s.selected@ == selected@,
            s.pending@ == initial_plan(selected@),
            no_records(s.records),
            s.failure is None,
    {
        let mut pending: Vec<QueryRequest> = Vec::new();
        if is_selected(&selected, MachineIdFactor::Baseboard) {
            pending.push(QueryRequest::GetBaseboard);
        }
        if is_selected(&selected, MachineIdFactor::Processor) {
            pending.push(QueryRequest::GetProcessor);
        }
        if is_selected(&selected, MachineIdFactor::DiskDrivers) {
            pending.push(QueryRequest::GetDiskPartitions);
        }
        if is_selected(&selected, MachineIdFactor::VideoControllers) {
            pending.push(QueryRequest::GetVideoControllers);
        }
        assert(pending@ =~= initial_plan(selected@));
        let records = HardwareRecords {
            board: None,
            processor: None,
            partitions: Vec::new(),
            drives: Vec::new(),
            video_controllers: Vec::new(),
        };
        MachineIdSession { selected, pending, records, failure: None }
    }

    /// The request to send next: `Shutdown` once a query failed or none is
    /// left.
    pub open spec fn next_spec(&self) -> QueryRequest {
        if self.failure is Some || self.pending@.len() == 0 {
            QueryRequest::Shutdown
        } else {
            self.pending@[0]
        }
    }

    /// The request to send next.
    pub fn next_request(&self) -> (r: QueryRequest)
        ensures
            r == self.next_spec(),
    {
        if self.failure.is_some() || self.pending.len() == 0 {
            QueryRequest::Shutdown
        } else {
            self.pending[0]
        }
    }

    /// Records the worker's answer to the request at the head of the plan.
    /// A failed query ends the plan; a response of another kind than the one
    /// asked for contributes nothing.
    pub fn accept(&mut self, resp: QueryResponse)
        requires
            old(self).failure is None,
            old(self).pending@.len() > 0,
        ensures
            accepted(*old(self), resp, *final(self)),
    {
        if let QueryResponse::Error(e) = resp {
            self.failure = Some(e);
            return;
        }
        let req = self.pending.remove(0);
        match resp {
            QueryResponse::Baseboard(b) => {
                if req == QueryRequest::GetBaseboard {
                    self.records.board = b;
                }
            },
            QueryResponse::Processor(p) => {
                if req == QueryRequest::GetProcessor {
                    self.records.processor = p;
                }
            },
            QueryResponse::DiskPartitions(p) => {
                if req == QueryRequest::GetDiskPartitions {
                    if p.len() > 0 {
                        self.pending.insert(0, QueryRequest::GetDiskDrives);
                    }
                    self.records.partitions = p;
                }
            },
            QueryResponse::DiskDrives(d) => {
                if req == QueryRequest::GetDiskDrives {
                    self.records.drives = d;
                }
            },
            QueryResponse::VideoControllers(g) => {
                if req == QueryRequest::GetVideoControllers {
                    self.records.video_controllers = g;
                }
            },
            QueryResponse::Error(_) => {},
        }
        assert(self.pending@ =~= accepted_pending(*old(self), resp));
    }

    /// Records a transport failure; the first failure is the one kept.
    pub fn fail(&mut self, e: MachineIdError)
        ensures
            final(self).selected == old(self).selected,
            final(self).pending == old(self).pending,
            final(self).records == old(self).records,
            final(self).failure == if old(self).failure is Some {
                old(self).failure
            } else {
                Some(e)
            },
    {
        if self.failure.is_none() {
            self.failure = Some(e);
        }
    }

    /// Records that a request could not be sent because the worker is gone.
    /// An error that the worker left waiting (its failed initialization) is
    /// kept in preference to the transport failure; the first failure wins.
    pub fn send_failed(&mut self, waiting: Option<QueryResponse>, message: String)
        ensures
            final(self).selected == old(self).selected,
            final(self).pending == old(self).pending,
            final(self).records == old(self).records,
            final(self).failure == if old(self).failure is Some {
                old(self).failure
            } else {
                match waiting {
                    Some(QueryResponse::Error(e)) => Some(e),
                    _ => Some(MachineIdError::ChannelSend(message)),
                }
            },
    {
        if self.failure.is_some() {
            return;
        }
        match waiting {
            Some(QueryResponse::Error(e)) => {
                self.failure = Some(e);
            },
            _ => {
                self.failure = Some(MachineIdError::ChannelSend(message));
            },
        }
    }

    /// Ends the session once the worker has terminated: the first failure,
    /// else the worker's abnormal end, else the fingerprint of the records.
    pub fn finish(self, worker: Result<(), String>) -> (r: Result<(String, Vec<String>), MachineIdError>)
        ensures
            match self.failure {
                Some(e) => r == Err::<(String, Vec<String>), MachineIdError>(e),
                None => match worker {
                    Err(m) => r == Err::<(String, Vec<String>), MachineIdError>(
                        MachineIdError::WorkerThreadPanicked(m),
                    ),
                    Ok(()) => fingerprint_view(r) == fingerprint_spec(self.selected@, self.records),
                },
            },
    {
        if let Some(e) = self.failure {
            return Err(e);
        }
        if let Err(m) = worker {
            return Err(MachineIdError::WorkerThreadPanicked(m));
        }
        fingerprint_from_records(&self.selected, &self.records)
    }
}

/// The plan that follows `s` once `resp` answered the head of its plan.
spec fn accepted_pending(s: MachineIdSession, resp: QueryResponse) -> Seq<QueryRequest> {
    let rest = s.pending@.drop_first();
    match resp {
        QueryResponse::Error(_) => s.pending@,
        QueryResponse::DiskPartitions(p) => if s.pending@[0] == QueryRequest::GetDiskPartitions
            && p@.len() > 0 {
            seq![QueryRequest::GetDiskDrives] + rest
        } else {
            rest
        },
        _ => rest,
    }
}

} // verus!
