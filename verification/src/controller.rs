//! One launch as a state machine: building, encoded, dispatched, and then
//! completed, detached or failed. The caller carries the request to the host
//! and the reply back; the steps here decide what state follows.

use vstd::prelude::*;
use crate::error::{Error, ExitCode, Pid};
use crate::spawn::{
    decode_spawn_reply, spawn_reply, SpawnRequest, SpawnResult, SpawnResultView,
};

verus! {

/// The states of one launch, as values.
pub enum SpawnState {
    /// The request is being put together; `ok` says whether it can be
    /// encoded, and `wire` what it encodes to.
    Building { ok: bool, wire: Seq<u8>, background: bool },
    /// The request is encoded and waits to be handed to the host.
    Encoded { request: Seq<u8>, background: bool },
    /// The request is with the host.
    Dispatched { background: bool },
    /// A foreground process ran to its end.
    Completed { exit_status: ExitCode, output: Seq<u8> },
    /// A background process was handed over.
    Detached { accepted: bool, child_pid: Pid },
    /// The launch failed.
    Failed(Error),
}

impl SpawnState {
    /// Whether the launch is over.
    pub open spec fn is_final(self) -> bool {
        self is Completed || self is Detached || self is Failed
    }

    /// From `Building`: `Encoded` where the request can be encoded, and
    /// `Failed` with `InvalidArgument` where it cannot. Any other state stays.
    pub open spec fn encode(self) -> SpawnState {
        match self {
            SpawnState::Building { ok, wire, background } => if ok {
                SpawnState::Encoded { request: wire, background }
            } else {
                SpawnState::Failed(Error::InvalidArgument)
            },
            _ => self,
        }
    }

    /// The bytes that leave for the host at this step: the request in
    /// `Encoded`, and nothing in any other state.
    pub open spec fn payload(self) -> Option<Seq<u8>> {
        match self {
            SpawnState::Encoded { request, .. } => Some(request),
            _ => None,
        }
    }

    /// From `Encoded`: `Dispatched`. Any other state stays.
    pub open spec fn dispatch(self) -> SpawnState {
        match self {
            SpawnState::Encoded { background, .. } => SpawnState::Dispatched { background },
            _ => self,
        }
    }

    /// From `Dispatched`: what the reply says. Any other state stays.
    pub open spec fn complete(self, reply: Seq<u8>) -> SpawnState {
        match self {
            SpawnState::Dispatched { background } => match spawn_reply(background, reply) {
                Ok(SpawnResultView::Completed { exit_status, output }) => SpawnState::Completed {
                    exit_status,
                    output,
                },
                Ok(SpawnResultView::Detached { accepted, child_pid }) => SpawnState::Detached {
                    accepted,
                    child_pid,
                },
                Err(e) => SpawnState::Failed(e),
            },
            _ => self,
        }
    }
}

/// One launch, step by step: the caller hands the payload of `dispatch` to
/// the host and the host's reply to `complete`.
#[derive(Debug)]
pub enum SpawnController {
    Building(SpawnRequest),
    Encoded { request: Vec<u8>, background: bool },
    Dispatched { background: bool },
    Completed { exit_status: ExitCode, output: Vec<u8> },
    Detached { accepted: bool, child_pid: Pid },
    Failed(Error),
}

impl View for SpawnController {
    type V = SpawnState;

    open spec fn view(&self) -> SpawnState {
        match *self {
            SpawnController::Building(request) => SpawnState::Building {
                ok: request.ok(),
                wire: request.wire(),
                background: request.background,
            },
            SpawnController::Encoded { request, background } => SpawnState::Encoded {
                request: request@,
                background,
            },
            SpawnController::Dispatched { background } => SpawnState::Dispatched { background },
            SpawnController::Completed { exit_status, output } => SpawnState::Completed {
                exit_status,
                output: output@,
            },
            SpawnController::Detached { accepted, child_pid } => SpawnState::Detached {
                accepted,
                child_pid,
            },
            SpawnController::Failed(e) => SpawnState::Failed(e),
        }
    }
}

impl SpawnController {
    /// A launch in its first state.
    pub fn new(request: SpawnRequest) -> (controller: SpawnController)
        ensures
            controller@ == (SpawnState::Building {
                ok: request.ok(),
                wire: request.wire(),
                background: request.background,
            }),
    {
        SpawnController::Building(request)
    }

    /// Checks and encodes the request.
    pub fn encode(self) -> (next: SpawnController)
        ensures
            next@ == self@.encode(),
    {
        match self {
            SpawnController::Building(request) => match request.encode() {
                Ok(bytes) => SpawnController::Encoded {
                    request: bytes,
                    background: request.background,
                },
                Err(e) => SpawnController::Failed(e),
            },
            other => other,
        }
    }

    /// Hands out the encoded request for the host. It is handed out in the
    /// state `Encoded` only, and that state is left with it.
    pub fn dispatch(self) -> (r: (SpawnController, Option<Vec<u8>>))
        ensures
            r.0@ == self@.dispatch(),
            match (self@.payload(), r.1) {
                (Some(expected), Some(request)) => request@ == expected,
                (None, None) => true,
                _ => false,
            },
    {
        match self {
            SpawnController::Encoded { request, background } => (
                SpawnController::Dispatched { background },
                Some(request),
            ),
            other => (other, None),
        }
    }

    /// Takes the host's reply.
    pub fn complete(self, reply: &[u8]) -> (next: SpawnController)
        ensures
            next@ == self@.complete(reply@),
    {
        match self {
            SpawnController::Dispatched { background } => match decode_spawn_reply(
                background,
                reply,
            ) {
                Ok(SpawnResult::Completed { exit_status, output }) => SpawnController::Completed {
                    exit_status,
                    output,
                },
                Ok(SpawnResult::Detached { accepted, child_pid }) => SpawnController::Detached {
                    accepted,
                    child_pid,
                },
                Err(e) => SpawnController::Failed(e),
            },
            other => other,
        }
    }

    /// The outcome of a launch that is over, and nothing while it is not.
    pub fn outcome(self) -> (r: Option<Result<SpawnResult, Error>>)
        ensures
            r is Some <==> self@.is_final(),
            match r {
                Some(Ok(result)) => match result@ {
                    SpawnResultView::Completed { exit_status, output } => self@ == (
                    SpawnState::Completed { exit_status, output }),
                    SpawnResultView::Detached { accepted, child_pid } => self@ == (
                    SpawnState::Detached { accepted, child_pid }),
                },
                Some(Err(e)) => self@ == SpawnState::Failed(e),
                None => true,
            },
    {
        match self {
            SpawnController::Completed { exit_status, output } => Some(
                Ok(SpawnResult::Completed { exit_status, output }),
            ),
            SpawnController::Detached { accepted, child_pid } => Some(
                Ok(SpawnResult::Detached { accepted, child_pid }),
            ),
            SpawnController::Failed(e) => Some(Err(e)),
            _ => None,
        }
    }
}

/// The request leaves for the host at most once: once it was handed out, no
/// step hands out a payload again, and the only step that changes the state
/// is the one that takes the reply.
pub proof fn payload_leaves_once(state: SpawnState, reply: Seq<u8>)
    requires
        state.payload() is Some,
    ensures
        state.dispatch().payload() is None,
        state.dispatch().encode() == state.dispatch(),
        state.dispatch().dispatch() == state.dispatch(),
        state.dispatch().complete(reply).is_final(),
        state.dispatch().complete(reply).payload() is None,
{
}

/// A launch that is over stays as it is, whatever step is taken.
pub proof fn final_states_stay(state: SpawnState, reply: Seq<u8>)
    requires
        state.is_final(),
    ensures
        state.encode() == state,
        state.dispatch() == state,
        state.complete(reply) == state,
        state.payload() is None,
{
}

/// The three steps in order lead from `Building` to a final state: `Failed`
/// with `InvalidArgument`, and nothing sent, where the request cannot be
/// encoded; otherwise the request is sent and the state is what the reply
/// says.
pub proof fn launch_runs_to_an_end(ok: bool, wire: Seq<u8>, background: bool, reply: Seq<u8>)
    ensures
        ({
            let start = SpawnState::Building { ok, wire, background };
            let end = start.encode().dispatch().complete(reply);
            &&& end.is_final()
            &&& !ok ==> end == SpawnState::Failed(Error::InvalidArgument) && start.encode().payload()
                is None
            &&& ok ==> start.encode().payload() == Some(wire) && end == (
            SpawnState::Dispatched { background }).complete(reply)
        }),
{
}

} // verus!
