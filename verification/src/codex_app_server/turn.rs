//! A turn as a state machine: from what is remembered and what just happened to
//! what to do next.
//!
//! The caller performs each [`Action`] and hands back the [`Event`] that came of
//! it, until the action is [`Action::Done`].

use vstd::prelude::*;

use crate::json::as_str;
use crate::json::as_u64;
use crate::json::is_text;
use crate::json::member;
use crate::json::nested;
use crate::json::str_option;
use crate::json::text_in;
use crate::json::unsigned_in;
use crate::json::Json;
use crate::json::JsonView;
use crate::json_text::json_to_string;
use crate::llm::text_reply;
use crate::llm::CompletionRequest;
use crate::llm::CompletionResponse;
use crate::llm::ContentBlock;
use crate::llm::LlmError;
use crate::llm::LlmErrorView;
use crate::llm::Message;
use crate::llm::ReplyView;
use crate::llm::StopReason;
use crate::llm::StreamEvent;
use crate::llm::StreamView;
use crate::llm::TokenUsage;
use crate::text::concat2;
use crate::text::no_text;
use crate::text::option_text;
use crate::text::str_equal;
use crate::trusted::json_text;
use super::prompt::conversation_of;
use super::prompt::prompt_text;
use super::prompt::to_send;
use super::protocol::failed_turn;
use super::protocol::initialize_request;
use super::protocol::limit_reached;
use super::protocol::rate_limited;
use super::protocol::read_frame;
use super::protocol::read_result;
use super::protocol::read_value;
use super::protocol::rejection;
use super::protocol::request_frame;
use super::protocol::response_error;
use super::protocol::spawn_error;
use super::protocol::spawn_failure;
use super::protocol::thread_request;
use super::protocol::turn_request;
use super::protocol::turn_text;
use super::protocol::usage_of;
use super::protocol::write_error;
use super::protocol::write_failure;
use super::protocol::ReadOutcome;
use super::protocol::SpawnFailure;
use super::protocol::WriteFailure;
use super::threads::lookup;
use super::threads::AppServerSession;
use super::threads::DriverState;
use super::threads::StateView;
use super::threads::ThreadState;
use super::threads::ThreadView;
use super::CodexAppServerDriver;

verus! {

/// Where the driver runs.
#[derive(Debug)]
pub struct HostInfo {
    /// The working directory, where it is known and is text.
    pub cwd: Option<String>,
    /// The version that the driver reports.
    pub version: String,
}

/// What a turn is about.
#[derive(Debug, PartialEq, Eq)]
pub struct Job {
    pub key: String,
    pub model: String,
    pub system: Option<String>,
    pub prompt: String,
    pub message_count: usize,
    pub streaming: bool,
}

/// What the session is wanted for.
#[derive(Debug, PartialEq, Eq)]
pub enum Goal {
    Thread,
    Turn { thread_id: String },
}

/// What a request is about.
#[derive(Debug, PartialEq, Eq)]
pub enum Purpose {
    Initialize(Goal),
    StartThread,
    StartTurn { thread_id: String },
}

/// What a running turn waits for.
#[derive(Debug, Clone, Copy, PartialEq, Eq, Structural)]
pub enum Waiting {
    Write,
    Read,
    Emit,
}

/// The id that a response lacks.
#[derive(Debug, Clone, Copy, PartialEq, Eq, Structural)]
pub enum MissingId {
    Thread,
    Turn,
}

/// How far a turn has come.
#[derive(Debug, PartialEq, Eq)]
pub enum Phase {
    CheckingSession(Goal),
    Spawning(Goal),
    Requesting { purpose: Purpose, id: u64, writing: bool },
    Reading {
        thread_id: String,
        turn_id: String,
        text: String,
        usage: TokenUsage,
        waiting: Waiting,
    },
    Completing { text: String, usage: TokenUsage },
    Finished,
}

/// What the caller does next.
#[derive(Debug)]
pub enum Action {
    /// See whether the app-server process still runs.
    CheckSession,
    /// Start an app-server process.
    Spawn,
    /// Write a frame and flush it.
    Write(Json),
    /// Read a line.
    Read,
    /// Show an event to the caller of the turn.
    Emit(StreamEvent),
    /// The turn is over.
    Done(Result<CompletionResponse, LlmError>),
}

/// What came of an action.
#[derive(Debug)]
pub enum Event {
    Session { alive: bool },
    Spawned(Result<(), SpawnFailure>),
    Written(Result<(), WriteFailure>),
    Read(ReadOutcome),
    Emitted,
}

/// The value of what the session is wanted for.
pub enum GoalView {
    Thread,
    Turn(Seq<char>),
}

impl View for Goal {
    type V = GoalView;

    open spec fn view(&self) -> GoalView {
        match self {
            Goal::Thread => GoalView::Thread,
            Goal::Turn { thread_id } => GoalView::Turn(thread_id@),
        }
    }
}

/// The value of what a request is about.
pub enum PurposeView {
    Initialize(GoalView),
    StartThread,
    StartTurn(Seq<char>),
}

impl View for Purpose {
    type V = PurposeView;

    open spec fn view(&self) -> PurposeView {
        match self {
            Purpose::Initialize(goal) => PurposeView::Initialize(goal@),
            Purpose::StartThread => PurposeView::StartThread,
            Purpose::StartTurn { thread_id } => PurposeView::StartTurn(thread_id@),
        }
    }
}

/// The value of how far a turn has come.
pub enum PhaseView {
    CheckingSession(GoalView),
    Spawning(GoalView),
    Requesting { purpose: PurposeView, id: u64, writing: bool },
    Reading {
        thread_id: Seq<char>,
        turn_id: Seq<char>,
        text: Seq<char>,
        usage: TokenUsage,
        waiting: Waiting,
    },
    Completing { text: Seq<char>, usage: TokenUsage },
    Finished,
}

impl View for Phase {
    type V = PhaseView;

    open spec fn view(&self) -> PhaseView {
        match self {
            Phase::CheckingSession(goal) => PhaseView::CheckingSession(goal@),
            Phase::Spawning(goal) => PhaseView::Spawning(goal@),
            Phase::Requesting { purpose, id, writing } => PhaseView::Requesting {
                purpose: purpose@,
                id: *id,
                writing: *writing,
            },
            Phase::Reading { thread_id, turn_id, text, usage, waiting } => PhaseView::Reading {
                thread_id: thread_id@,
                turn_id: turn_id@,
                text: text@,
                usage: *usage,
                waiting: *waiting,
            },
            Phase::Completing { text, usage } => PhaseView::Completing {
                text: text@,
                usage: *usage,
            },
            Phase::Finished => PhaseView::Finished,
        }
    }
}

/// The value of what the caller does next.
pub enum ActionView {
    CheckSession,
    Spawn,
    Write(JsonView),
    Read,
    Emit(StreamView),
    Done(Result<ReplyView, LlmErrorView>),
}

impl View for Action {
    type V = ActionView;

    open spec fn view(&self) -> ActionView {
        match self {
            Action::CheckSession => ActionView::CheckSession,
            Action::Spawn => ActionView::Spawn,
            Action::Write(frame) => ActionView::Write(frame@),
            Action::Read => ActionView::Read,
            Action::Emit(event) => ActionView::Emit(event@),
            Action::Done(Ok(reply)) => ActionView::Done(Ok(reply@)),
            Action::Done(Err(e)) => ActionView::Done(Err(e@)),
        }
    }
}

/// Where a step leads: what is remembered, how far the turn has come, and what
/// to do next.
#[verifier::ext_equal]
pub struct Step {
    pub state: StateView,
    pub phase: PhaseView,
    pub action: ActionView,
}

/// The turn is over without a reply.
pub open spec fn failed(state: StateView, e: LlmErrorView) -> Step {
    Step { state, phase: PhaseView::Finished, action: ActionView::Done(Err(e)) }
}

/// The session is given up.
pub open spec fn without_session(state: StateView) -> StateView {
    StateView { session: None, threads: state.threads }
}

/// A session is wanted: one that is there is looked at, else one is started.
pub open spec fn want_session(state: StateView, goal: GoalView) -> Step {
    if state.session is Some {
        Step { state, phase: PhaseView::CheckingSession(goal), action: ActionView::CheckSession }
    } else {
        new_session(state, goal)
    }
}

/// A new session is started.
pub open spec fn new_session(state: StateView, goal: GoalView) -> Step {
    Step {
        state: without_session(state),
        phase: PhaseView::Spawning(goal),
        action: ActionView::Spawn,
    }
}

/// A request is sent.
pub open spec fn sent_request(
    state: StateView,
    purpose: PurposeView,
    id: u64,
    method: Seq<char>,
    params: JsonView,
) -> Step {
    Step {
        state,
        phase: PhaseView::Requesting { purpose, id, writing: true },
        action: ActionView::Write(request_frame(id, method, params)),
    }
}

/// The session is there: the thread or the turn is started on it.
pub open spec fn on_session(job: Job, state: StateView, goal: GoalView, host: HostInfo) -> Step {
    match state.session {
        None => failed(
            state,
            LlmErrorView::Http("Codex app-server session was not available after spawn"@),
        ),
        Some(id) => {
            let state = StateView { session: Some((id + 1) as u64), threads: state.threads };
            match goal {
                GoalView::Thread => sent_request(
                    state,
                    PurposeView::StartThread,
                    id,
                    "thread/start"@,
                    thread_request(job.model@, option_text(host.cwd), option_text(job.system)),
                ),
                GoalView::Turn(thread_id) => sent_request(
                    state,
                    PurposeView::StartTurn(thread_id),
                    id,
                    "turn/start"@,
                    turn_request(thread_id, job.prompt@, job.model@, option_text(host.cwd)),
                ),
            }
        },
    }
}

/// A request was answered with a result.
pub open spec fn on_result(
    job: Job,
    state: StateView,
    purpose: PurposeView,
    result: JsonView,
    host: HostInfo,
) -> Step {
    match purpose {
        PurposeView::Initialize(goal) => on_session(
            job,
            StateView { session: Some(2), threads: state.threads },
            goal,
            host,
        ),
        PurposeView::StartThread => match text_in(nested(result, "thread"@, "id"@)) {
            Some(thread_id) => want_session(
                StateView {
                    session: state.session,
                    threads: state.threads.insert(
                        job.key@,
                        ThreadView { thread_id, model: job.model@, sent_message_count: 0 },
                    ),
                },
                GoalView::Turn(thread_id),
            ),
            None => failed(state, missing_id(MissingId::Thread, json_text(result))),
        },
        PurposeView::StartTurn(thread_id) => match text_in(nested(result, "turn"@, "id"@)) {
            Some(turn_id) => Step {
                state,
                phase: PhaseView::Reading {
                    thread_id,
                    turn_id,
                    text: seq![],
                    usage: TokenUsage { input_tokens: 0, output_tokens: 0 },
                    waiting: Waiting::Read,
                },
                action: ActionView::Read,
            },
            None => failed(state, missing_id(MissingId::Turn, json_text(result))),
        },
    }
}

/// A frame came while a request waits for its answer: the answer, a request of
/// the server, which is rejected, or something else, which is passed over.
pub open spec fn on_request_frame(
    job: Job,
    state: StateView,
    purpose: PurposeView,
    id: u64,
    frame: JsonView,
    host: HostInfo,
) -> Step {
    let pass = Step {
        state,
        phase: PhaseView::Requesting { purpose, id, writing: false },
        action: ActionView::Read,
    };
    match unsigned_in(member(frame, "id"@)) {
        None => pass,
        Some(frame_id) => if frame_id == id {
            match member(frame, "error"@) {
                Some(error) => failed(state, response_error(error)),
                None => on_result(
                    job,
                    state,
                    purpose,
                    match member(frame, "result"@) {
                        Some(result) => result,
                        None => JsonView::Null,
                    },
                    host,
                ),
            }
        } else if text_in(member(frame, "method"@)) is Some {
            Step {
                state,
                phase: PhaseView::Requesting { purpose, id, writing: true },
                action: ActionView::Write(rejection(frame)->Some_0),
            }
        } else {
            pass
        },
    }
}

/// What a frame means to a running turn.
pub enum TurnNews {
    /// A request of the server.
    Request,
    /// More of the reply.
    Delta(Seq<char>),
    /// What the turn has used so far.
    Usage(TokenUsage),
    /// The turn is complete; its text, should no part of it have come before.
    Completed(Seq<char>),
    /// The turn has failed.
    Failed(LlmErrorView),
    /// Nothing.
    Other,
}

/// A notification is about the given thread.
pub open spec fn about_thread(params: JsonView, thread_id: Seq<char>) -> bool {
    text_in(member(params, "threadId"@)) == Some(thread_id)
}

/// A notification is about the given turn.
pub open spec fn about_turn(params: JsonView, thread_id: Seq<char>, turn_id: Seq<char>) -> bool {
    about_thread(params, thread_id) && text_in(member(params, "turnId"@)) == Some(turn_id)
}

/// What a frame means to a running turn.
pub open spec fn turn_news(
    thread_id: Seq<char>,
    turn_id: Seq<char>,
    frame: JsonView,
) -> TurnNews {
    let params = match member(frame, "params"@) {
        Some(params) => params,
        None => JsonView::Null,
    };
    let method = match text_in(member(frame, "method"@)) {
        Some(method) => method,
        None => ""@,
    };
    if member(frame, "id"@) is Some && member(frame, "method"@) is Some {
        TurnNews::Request
    } else if method == "item/agentMessage/delta"@ && about_turn(params, thread_id, turn_id) {
        match text_in(member(params, "delta"@)) {
            Some(delta) => TurnNews::Delta(delta),
            None => TurnNews::Other,
        }
    } else if method == "thread/tokenUsage/updated"@ && about_turn(params, thread_id, turn_id) {
        TurnNews::Usage(usage_of(params))
    } else if method == "turn/completed"@ && about_thread(params, thread_id) {
        TurnNews::Completed(turn_text(params))
    } else if method == "error"@ && about_turn(params, thread_id, turn_id) {
        TurnNews::Failed(failed_turn(params))
    } else if method == "account/rateLimits/updated"@ && limit_reached(params) {
        TurnNews::Failed(rate_limited())
    } else {
        TurnNews::Other
    }
}

/// The conversation has seen the request's messages and the reply.
pub open spec fn caught_up(job: Job, state: StateView) -> StateView {
    match lookup(state.threads, job.key@) {
        None => state,
        Some(thread) => StateView {
            session: state.session,
            threads: state.threads.insert(
                job.key@,
                ThreadView {
                    thread_id: thread.thread_id,
                    model: thread.model,
                    sent_message_count: if job.message_count < usize::MAX {
                        (job.message_count + 1) as usize
                    } else {
                        usize::MAX
                    },
                },
            ),
        },
    }
}

/// The turn is over with a reply; one that streams is told first.
pub open spec fn completed(job: Job, state: StateView, text: Seq<char>, usage: TokenUsage) -> Step {
    if job.streaming {
        Step {
            state: caught_up(job, state),
            phase: PhaseView::Completing { text, usage },
            action: ActionView::Emit(
                StreamView::ContentComplete { stop_reason: StopReason::EndTurn, usage },
            ),
        }
    } else {
        Step {
            state: caught_up(job, state),
            phase: PhaseView::Finished,
            action: ActionView::Done(Ok(text_reply(text, usage))),
        }
    }
}

/// The turn goes on.
pub open spec fn reading(
    state: StateView,
    thread_id: Seq<char>,
    turn_id: Seq<char>,
    text: Seq<char>,
    usage: TokenUsage,
    waiting: Waiting,
    action: ActionView,
) -> Step {
    Step {
        state,
        phase: PhaseView::Reading { thread_id, turn_id, text, usage, waiting },
        action,
    }
}

/// A frame came while a turn runs.
pub open spec fn on_turn_frame(
    job: Job,
    state: StateView,
    thread_id: Seq<char>,
    turn_id: Seq<char>,
    text: Seq<char>,
    usage: TokenUsage,
    frame: JsonView,
) -> Step {
    match turn_news(thread_id, turn_id, frame) {
        TurnNews::Request => reading(
            state,
            thread_id,
            turn_id,
            text,
            usage,
            Waiting::Write,
            ActionView::Write(rejection(frame)->Some_0),
        ),
        TurnNews::Delta(delta) => if job.streaming {
            reading(
                state,
                thread_id,
                turn_id,
                text + delta,
                usage,
                Waiting::Emit,
                ActionView::Emit(StreamView::TextDelta(delta)),
            )
        } else {
            reading(
                state,
                thread_id,
                turn_id,
                text + delta,
                usage,
                Waiting::Read,
                ActionView::Read,
            )
        },
        TurnNews::Usage(new_usage) => reading(
            state,
            thread_id,
            turn_id,
            text,
            new_usage,
            Waiting::Read,
            ActionView::Read,
        ),
        TurnNews::Completed(whole) => completed(
            job,
            state,
            if text.len() == 0 {
                whole
            } else {
                text
            },
            usage,
        ),
        TurnNews::Failed(e) => failed(without_session(state), e),
        TurnNews::Other => reading(
            state,
            thread_id,
            turn_id,
            text,
            usage,
            Waiting::Read,
            ActionView::Read,
        ),
    }
}

/// What is missing from a response.
pub open spec fn missing_id(missing: MissingId, response: Seq<char>) -> LlmErrorView {
    LlmErrorView::Parse(
        match missing {
            MissingId::Thread => "Codex app-server thread/start response missing thread id: "@,
            MissingId::Turn => "Codex app-server turn/start response missing turn id: "@,
        } + response,
    )
}

/// The phase waits for such an event.
pub open spec fn expected(phase: PhaseView, event: Event) -> bool {
    match phase {
        PhaseView::CheckingSession(_) => event is Session,
        PhaseView::Spawning(_) => event is Spawned,
        PhaseView::Requesting { writing, .. } => if writing {
            event is Written
        } else {
            event is Read
        },
        PhaseView::Reading { waiting, .. } => match waiting {
            Waiting::Write => event is Written,
            Waiting::Read => event is Read,
            Waiting::Emit => event is Emitted,
        },
        PhaseView::Completing { .. } => event is Emitted,
        PhaseView::Finished => false,
    }
}

/// Where what was read leads.
pub open spec fn read_step(
    job: Job,
    state: StateView,
    phase: PhaseView,
    read: Result<Option<JsonView>, LlmErrorView>,
    host: HostInfo,
) -> Step {
    match phase {
        PhaseView::Requesting { purpose, id, .. } => match read {
            Ok(Some(frame)) => on_request_frame(job, state, purpose, id, frame, host),
            Ok(None) => Step {
                state,
                phase: PhaseView::Requesting { purpose, id, writing: false },
                action: ActionView::Read,
            },
            Err(e) => failed(state, e),
        },
        PhaseView::Reading { thread_id, turn_id, text, usage, .. } => match read {
            Ok(Some(frame)) => on_turn_frame(job, state, thread_id, turn_id, text, usage, frame),
            Ok(None) => reading(
                state,
                thread_id,
                turn_id,
                text,
                usage,
                Waiting::Read,
                ActionView::Read,
            ),
            Err(e) => failed(without_session(state), e),
        },
        _ => Step { state, phase, action: ActionView::Read },
    }
}

/// Where an event leads. The session is given up where it has ended and where a
/// running turn fails; a request that fails leaves it. An event that the phase
/// does not wait for changes nothing.
pub open spec fn stepped(
    job: Job,
    state: StateView,
    phase: PhaseView,
    event: Event,
    host: HostInfo,
) -> Step {
    match (phase, event) {
        (PhaseView::CheckingSession(goal), Event::Session { alive }) => if alive {
            on_session(job, state, goal, host)
        } else {
            new_session(state, goal)
        },
        (PhaseView::Spawning(goal), Event::Spawned(outcome)) => match outcome {
            Ok(_) => sent_request(
                state,
                PurposeView::Initialize(goal),
                1,
                "initialize"@,
                initialize_request(host.version@),
            ),
            Err(f) => failed(state, spawn_failure(f)),
        },
        (PhaseView::Requesting { purpose, id, .. }, Event::Written(outcome)) => match outcome {
            Ok(_) => Step {
                state,
                phase: PhaseView::Requesting { purpose, id, writing: false },
                action: ActionView::Read,
            },
            Err(f) => failed(state, write_failure(f)),
        },
        (
            PhaseView::Reading { thread_id, turn_id, text, usage, .. },
            Event::Written(outcome),
        ) => match outcome {
            Ok(_) => reading(
                state,
                thread_id,
                turn_id,
                text,
                usage,
                Waiting::Read,
                ActionView::Read,
            ),
            Err(f) => failed(without_session(state), write_failure(f)),
        },
        (PhaseView::Reading { thread_id, turn_id, text, usage, .. }, Event::Emitted) => reading(
            state,
            thread_id,
            turn_id,
            text,
            usage,
            Waiting::Read,
            ActionView::Read,
        ),
        (_, Event::Read(outcome)) => read_step(job, state, phase, read_result(outcome), host),
        (PhaseView::Completing { text, usage }, Event::Emitted) => Step {
            state,
            phase: PhaseView::Finished,
            action: ActionView::Done(Ok(text_reply(text, usage))),
        },
        _ => Step { state, phase, action: ActionView::Read },
    }
}

/// The value of what follows from a phase and an action.
pub open spec fn step_value(state: DriverState, next: (Phase, Action)) -> Step {
    Step { state: state@, phase: next.0@, action: next.1@ }
}

fn fail(e: LlmError) -> (r: (Phase, Action))
    ensures
        r.0@ == PhaseView::Finished,
        r.1@ == ActionView::Done(Err(e@)),
{
    (Phase::Finished, Action::Done(Err(e)))
}

/// Whether a session has to be started: where there is none, and where its
/// process has ended or cannot be looked at.
pub fn ensure_session(state: &DriverState, goal: Goal) -> (r: (Phase, Action))
    ensures
        step_value(*state, r) == want_session(state@, goal@),
{
    if state.session.is_some() {
        (Phase::CheckingSession(goal), Action::CheckSession)
    } else {
        (Phase::Spawning(goal), Action::Spawn)
    }
}

/// Starts the thread or the turn on the session.
fn use_session(job: &Job, state: &mut DriverState, goal: Goal, host: &HostInfo) -> (r: (
    Phase,
    Action,
))
    requires
        old(state).session matches Some(s) ==> s.next_id < u64::MAX,
    ensures
        step_value(*final(state), r) == on_session(*job, old(state)@, goal@, *host),
{
    let id: u64 = match &state.session {
        None => return fail(
            LlmError::Http("Codex app-server session was not available after spawn".to_owned()),
        ),
        Some(session) => session.next_id,
    };
    state.session = Some(AppServerSession { next_id: id + 1 });
    let cwd: Option<&str> = as_deref(&host.cwd);
    match goal {
        Goal::Thread => {
            let params: Json = CodexAppServerDriver::thread_params(
                job.model.as_str(),
                cwd,
                as_deref(&job.system),
            );
            let frame: Json = CodexAppServerDriver::request_json(id, "thread/start", params);
            (
                Phase::Requesting { purpose: Purpose::StartThread, id, writing: true },
                Action::Write(frame),
            )
        },
        Goal::Turn { thread_id } => {
            let params: Json = CodexAppServerDriver::turn_params(
                thread_id.as_str(),
                job.prompt.as_str(),
                job.model.as_str(),
                cwd,
            );
            let frame: Json = CodexAppServerDriver::request_json(id, "turn/start", params);
            (
                Phase::Requesting { purpose: Purpose::StartTurn { thread_id }, id, writing: true },
                Action::Write(frame),
            )
        },
    }
}

fn as_deref(s: &Option<String>) -> (r: Option<&str>)
    ensures
        str_option(r) == option_text(*s),
{
    match s {
        Some(t) => Some(t.as_str()),
        None => None,
    }
}

/// Goes on with the result of a request.
fn accept_result(
    job: &Job,
    state: &mut DriverState,
    purpose: Purpose,
    result: &Json,
    host: &HostInfo,
) -> (r: (Phase, Action))
    ensures
        step_value(*final(state), r) == on_result(*job, old(state)@, purpose@, result@, *host),
{
    match purpose {
        Purpose::Initialize(goal) => {
            state.session = Some(AppServerSession { next_id: 2 });
            use_session(job, state, goal, host)
        },
        Purpose::StartThread => match as_str(result.get_nested("thread", "id")) {
            Some(thread_id) => {
                let thread: ThreadState = ThreadState {
                    thread_id: thread_id.to_owned(),
                    model: job.model.as_str().to_owned(),
                    sent_message_count: 0,
                };
                state.threads.put(job.key.as_str(), thread);
                ensure_session(state, Goal::Turn { thread_id: thread_id.to_owned() })
            },
            None => {
                let text: String = json_to_string(result);
                fail(missing_id_error(MissingId::Thread, text.as_str()))
            },
        },
        Purpose::StartTurn { thread_id } => match as_str(result.get_nested("turn", "id")) {
            Some(turn_id) => {
                let text: String = String::new();
                assert(text@ =~= Seq::<char>::empty());
                (
                    Phase::Reading {
                        thread_id,
                        turn_id: turn_id.to_owned(),
                        text,
                        usage: TokenUsage { input_tokens: 0, output_tokens: 0 },
                        waiting: Waiting::Read,
                    },
                    Action::Read,
                )
            },
            None => {
                let text: String = json_to_string(result);
                fail(missing_id_error(MissingId::Turn, text.as_str()))
            },
        },
    }
}

/// Takes a frame that came while a request waits for its answer.
fn take_request_frame(
    job: &Job,
    state: &mut DriverState,
    purpose: Purpose,
    id: u64,
    frame: &Json,
    host: &HostInfo,
) -> (r: (Phase, Action))
    ensures
        step_value(*final(state), r) == on_request_frame(
            *job,
            old(state)@,
            purpose@,
            id,
            frame@,
            *host,
        ),
{
    if let Some(frame_id) = as_u64(frame.get("id")) {
        if frame_id == id {
            if let Some(error) = frame.get("error") {
                return fail(CodexAppServerDriver::jsonrpc_error(error));
            }
            let null: Json = Json::Null;
            let result: &Json = match frame.get("result") {
                Some(result) => result,
                None => &null,
            };
            return accept_result(job, state, purpose, result, host);
        }
        if as_str(frame.get("method")).is_some() {
            if let Some(answer) = CodexAppServerDriver::reject_server_request(frame) {
                return (Phase::Requesting { purpose, id, writing: true }, Action::Write(answer));
            }
        }
    }
    (Phase::Requesting { purpose, id, writing: false }, Action::Read)
}

/// What a running turn has brought so far.
#[derive(Debug, PartialEq, Eq)]
pub struct TurnReader {
    pub thread_id: String,
    pub turn_id: String,
    pub text: String,
    pub usage: TokenUsage,
}

impl TurnReader {
    /// The turn goes on.
    fn go_on(self, waiting: Waiting, action: Action) -> (r: (Phase, Action))
        ensures
            r.0@ == (PhaseView::Reading {
                thread_id: self.thread_id@,
                turn_id: self.turn_id@,
                text: self.text@,
                usage: self.usage,
                waiting,
            }),
            r.1 == action,
    {
        (
            Phase::Reading {
                thread_id: self.thread_id,
                turn_id: self.turn_id,
                text: self.text,
                usage: self.usage,
                waiting,
            },
            action,
        )
    }

    /// Whether a notification is about this turn's thread.
    fn names_thread(&self, params: &Json) -> (r: bool)
        ensures
            r == about_thread(params@, self.thread_id@),
    {
        is_text(params.get("threadId"), self.thread_id.as_str())
    }

    /// Whether a notification is about this turn.
    fn names_turn(&self, params: &Json) -> (r: bool)
        ensures
            r == about_turn(params@, self.thread_id@, self.turn_id@),
    {
        self.names_thread(params) && is_text(params.get("turnId"), self.turn_id.as_str())
    }
}

/// Ends a turn with a reply.
fn complete(job: &Job, state: &mut DriverState, text: String, usage: TokenUsage) -> (r: (
    Phase,
    Action,
))
    ensures
        step_value(*final(state), r) == completed(*job, old(state)@, text@, usage),
{
    let update: Option<ThreadState> = match state.threads.get(job.key.as_str()) {
        Some(thread) => Some(
            ThreadState {
                thread_id: thread.thread_id.as_str().to_owned(),
                model: thread.model.as_str().to_owned(),
                sent_message_count: job.message_count.saturating_add(1),
            },
        ),
        None => None,
    };
    if let Some(thread) = update {
        state.threads.put(job.key.as_str(), thread);
    }
    if job.streaming {
        (
            Phase::Completing { text, usage },
            Action::Emit(
                StreamEvent::ContentComplete { stop_reason: StopReason::EndTurn, usage },
            ),
        )
    } else {
        (Phase::Finished, Action::Done(Ok(reply_of(text, usage))))
    }
}

/// The reply that is one text and calls no tools.
pub fn reply_of(text: String, usage: TokenUsage) -> (r: CompletionResponse)
    ensures
        r@ == text_reply(text@, usage),
{
    let mut content: Vec<ContentBlock> = Vec::new();
    let ghost words = text@;
    content.push(ContentBlock::Text { text, provider_metadata: None });
    let r: CompletionResponse = CompletionResponse {
        content,
        stop_reason: StopReason::EndTurn,
        tool_calls: Vec::new(),
        usage,
    };
    assert(r@.content =~= seq![Some(words)]);
    r
}

/// Takes a frame that came while a turn runs.
fn take_turn_frame(job: &Job, state: &mut DriverState, reader: TurnReader, frame: &Json) -> (r: (
    Phase,
    Action,
))
    ensures
        step_value(*final(state), r) == on_turn_frame(
            *job,
            old(state)@,
            reader.thread_id@,
            reader.turn_id@,
            reader.text@,
            reader.usage,
            frame@,
        ),
{
    let mut reader: TurnReader = reader;
    if frame.get("id").is_some() && frame.get("method").is_some() {
        if let Some(answer) = CodexAppServerDriver::reject_server_request(frame) {
            return reader.go_on(Waiting::Write, Action::Write(answer));
        }
    }
    let method: &str = match as_str(frame.get("method")) {
        Some(method) => method,
        None => "",
    };
    let null: Json = Json::Null;
    let params: &Json = match frame.get("params") {
        Some(params) => params,
        None => &null,
    };
    if str_equal(method, "item/agentMessage/delta") && reader.names_turn(params) {
        if let Some(delta) = as_str(params.get("delta")) {
            reader.text.append(delta);
            if job.streaming {
                return reader.go_on(
                    Waiting::Emit,
                    Action::Emit(StreamEvent::TextDelta { text: delta.to_owned() }),
                );
            }
        }
    } else if str_equal(method, "thread/tokenUsage/updated") && reader.names_turn(params) {
        reader.usage = CodexAppServerDriver::parse_usage(params);
    } else if str_equal(method, "turn/completed") && reader.names_thread(params) {
        let text: String = if no_text(reader.text.as_str()) {
            CodexAppServerDriver::extract_turn_text(params)
        } else {
            reader.text
        };
        return complete(job, state, text, reader.usage);
    } else if str_equal(method, "error") && reader.names_turn(params) {
        state.session = None;
        return fail(CodexAppServerDriver::turn_error(params));
    } else if str_equal(method, "account/rateLimits/updated")
        && CodexAppServerDriver::rate_limit_reached(params) {
        state.session = None;
        return fail(LlmError::RateLimited { retry_after_ms: 60_000 });
    }
    reader.go_on(Waiting::Read, Action::Read)
}

/// The error of a response without the id that it should bring, by the
/// response's JSON text.
pub fn missing_id_error(missing: MissingId, response: &str) -> (r: LlmError)
    ensures
        r@ == missing_id(missing, response@),
{
    LlmError::Parse(
        concat2(
            match missing {
                MissingId::Thread => "Codex app-server thread/start response missing thread id: ",
                MissingId::Turn => "Codex app-server turn/start response missing turn id: ",
            },
            response,
        ),
    )
}

/// A turn that runs.
#[derive(Debug)]
pub struct TurnRun {
    pub job: Job,
    pub phase: Phase,
}

/// What a turn of a request is about, by what is known of its conversation.
pub open spec fn job_for(
    job: Job,
    request: CompletionRequest,
    streaming: bool,
    known: Option<ThreadView>,
) -> bool {
    &&& job.key@ == conversation_of(request.messages@)
    &&& job.model@ == request.model@
    &&& option_text(job.system) == option_text(request.system)
    &&& job.prompt@ == prompt_text(
        to_send(
            request.messages@,
            match known {
                Some(thread) => Some(thread.sent_message_count),
                None => None,
            },
        ),
        option_text(request.system),
    )
    &&& job.message_count == request.messages@.len()
    &&& job.streaming == streaming
}

/// The conversation's thread, where it was started for the request's model.
pub open spec fn known_thread(state: StateView, request: CompletionRequest) -> Option<ThreadView> {
    match lookup(state.threads, conversation_of(request.messages@)) {
        Some(thread) => if thread.model == request.model@ {
            Some(thread)
        } else {
            None
        },
        None => None,
    }
}

/// What a turn needs a session for first.
pub open spec fn first_goal(known: Option<ThreadView>) -> GoalView {
    match known {
        Some(thread) => GoalView::Turn(thread.thread_id),
        None => GoalView::Thread,
    }
}

impl TurnRun {
    /// Begins a turn. A conversation whose thread was started for the same model
    /// goes on there; else a thread is started.
    pub fn begin(state: &DriverState, request: &CompletionRequest, streaming: bool) -> (r: (
        TurnRun,
        Action,
    ))
        ensures
            job_for(r.0.job, *request, streaming, known_thread(state@, *request)),
            step_value(*state, (r.0.phase, r.1)) == want_session(
                state@,
                first_goal(known_thread(state@, *request)),
            ),
    {
        let key: String = CodexAppServerDriver::conversation_key(request);
        let known: Option<&ThreadState> = match state.threads.get(key.as_str()) {
            Some(thread) => if str_equal(thread.model.as_str(), request.model.as_str()) {
                Some(thread)
            } else {
                None
            },
            None => None,
        };
        let messages: Vec<&Message> = CodexAppServerDriver::messages_for_turn(request, known);
        let prompt: String = CodexAppServerDriver::build_prompt(
            messages.as_slice(),
            as_deref(&request.system),
        );
        let goal: Goal = match known {
            Some(thread) => Goal::Turn { thread_id: thread.thread_id.as_str().to_owned() },
            None => Goal::Thread,
        };
        let job: Job = Job {
            key,
            model: request.model.as_str().to_owned(),
            system: match &request.system {
                Some(s) => Some(s.as_str().to_owned()),
                None => None,
            },
            prompt,
            message_count: request.messages.len(),
            streaming,
        };
        let (phase, action): (Phase, Action) = ensure_session(state, goal);
        (TurnRun { job, phase }, action)
    }

    /// Whether the turn waits for such an event.
    pub fn expects(&self, event: &Event) -> (r: bool)
        ensures
            r == expected(self.phase@, *event),
    {
        match (&self.phase, event) {
            (Phase::CheckingSession(_), Event::Session { .. }) => true,
            (Phase::Spawning(_), Event::Spawned(_)) => true,
            (Phase::Requesting { writing, .. }, Event::Written(_)) => *writing,
            (Phase::Requesting { writing, .. }, Event::Read(_)) => !*writing,
            (Phase::Reading { waiting, .. }, Event::Written(_)) => *waiting == Waiting::Write,
            (Phase::Reading { waiting, .. }, Event::Read(_)) => *waiting == Waiting::Read,
            (Phase::Reading { waiting, .. }, Event::Emitted) => *waiting == Waiting::Emit,
            (Phase::Completing { .. }, Event::Emitted) => true,
            _ => false,
        }
    }

    /// Goes on with what was read.
    pub fn step_read(
        self,
        state: &mut DriverState,
        read: Result<Option<Json>, LlmError>,
        host: &HostInfo,
    ) -> (r: (TurnRun, Action))
        ensures
            r.0.job == self.job,
            step_value(*final(state), (r.0.phase, r.1)) == read_step(
                self.job,
                old(state)@,
                self.phase@,
                read_value(read),
                *host,
            ),
    {
        let job: Job = self.job;
        let next: (Phase, Action) = match self.phase {
            Phase::Requesting { purpose, id, .. } => match read {
                Ok(Some(frame)) => take_request_frame(&job, state, purpose, id, &frame, host),
                Ok(None) => (Phase::Requesting { purpose, id, writing: false }, Action::Read),
                Err(e) => fail(e),
            },
            Phase::Reading { thread_id, turn_id, text, usage, .. } => {
                let reader: TurnReader = TurnReader { thread_id, turn_id, text, usage };
                match read {
                    Ok(Some(frame)) => take_turn_frame(&job, state, reader, &frame),
                    Ok(None) => reader.go_on(Waiting::Read, Action::Read),
                    Err(e) => {
                        state.session = None;
                        fail(e)
                    },
                }
            },
            phase => (phase, Action::Read),
        };
        (TurnRun { job, phase: next.0 }, next.1)
    }

    /// Goes on with what came of the last action.
    pub fn step(self, state: &mut DriverState, event: &Event, host: &HostInfo) -> (r: (
        TurnRun,
        Action,
    ))
        requires
            expected(self.phase@, *event),
            self.phase is CheckingSession && *event == (Event::Session { alive: true }) ==> (
            old(state).session matches Some(s) ==> s.next_id < u64::MAX),
        ensures
            r.0.job == self.job,
            step_value(*final(state), (r.0.phase, r.1)) == stepped(
                self.job,
                old(state)@,
                self.phase@,
                *event,
                *host,
            ),
    {
        if let Event::Read(outcome) = event {
            let read: Result<Option<Json>, LlmError> = read_frame(outcome);
            return self.step_read(state, read, host);
        }
        let job: Job = self.job;
        let next: (Phase, Action) = match (self.phase, event) {
            (Phase::CheckingSession(goal), Event::Session { alive }) => if *alive {
                use_session(&job, state, goal, host)
            } else {
                state.session = None;
                (Phase::Spawning(goal), Action::Spawn)
            },
            (Phase::Spawning(goal), Event::Spawned(outcome)) => match outcome {
                Ok(_) => {
                    let params: Json = CodexAppServerDriver::initialize_params(
                        host.version.as_str(),
                    );
                    let frame: Json = CodexAppServerDriver::request_json(1, "initialize", params);
                    (
                        Phase::Requesting {
                            purpose: Purpose::Initialize(goal),
                            id: 1,
                            writing: true,
                        },
                        Action::Write(frame),
                    )
                },
                Err(f) => fail(spawn_error(f)),
            },
            (Phase::Requesting { purpose, id, .. }, Event::Written(outcome)) => match outcome {
                Ok(_) => (Phase::Requesting { purpose, id, writing: false }, Action::Read),
                Err(f) => fail(write_error(f)),
            },
            (Phase::Reading { thread_id, turn_id, text, usage, .. }, event) => {
                let reader: TurnReader = TurnReader { thread_id, turn_id, text, usage };
                match event {
                    Event::Written(Err(f)) => {
                        state.session = None;
                        fail(write_error(f))
                    },
                    _ => reader.go_on(Waiting::Read, Action::Read),
                }
            },
            (Phase::Completing { text, usage }, Event::Emitted) => (
                Phase::Finished,
                Action::Done(Ok(reply_of(text, usage))),
            ),
            (phase, _) => (phase, Action::Read),
        };
        (TurnRun { job, phase: next.0 }, next.1)
    }
}

} // verus!
