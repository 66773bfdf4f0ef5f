//! What holds of each step of a turn, stated on what is read and what comes next.

use vstd::prelude::*;

use crate::json::member;
use crate::json::nested;
use crate::json::text_in;
use crate::json::unsigned_in;
use crate::json::JsonView;
use crate::json::NumberView;
use crate::llm::CompletionRequest;
use crate::llm::LlmErrorView;
use crate::llm::ReplyView;
use crate::llm::StopReason;
use crate::llm::StreamView;
use crate::llm::TokenUsage;
use crate::text::option_text;
use crate::text_laws::blank;
use crate::text_laws::firm;
use crate::trusted::json_parsed;
use crate::trusted::json_text;
use super::prompt::conversation_of;
use super::prompt::prompt_text;
use super::prompt::to_send;
use super::protocol::failed_turn;
use super::protocol::initialize_request;
use super::protocol::limit_reached;
use super::protocol::rejection;
use super::protocol::request_frame;
use super::protocol::response_error;
use super::protocol::spawn_failure;
use super::protocol::thread_request;
use super::protocol::turn_request;
use super::protocol::turn_text;
use super::protocol::usage_of;
use super::protocol::write_failure;
use super::protocol::ReadOutcome;
use super::protocol::SpawnFailure;
use super::protocol::WriteFailure;
use super::protocol_laws::law_failures_say_what_failed;
use super::protocol_laws::law_line_is_read_without_outer_white_space;
use super::threads::StateView;
use super::threads::ThreadView;
use super::turn::expected;
use super::turn::first_goal;
use super::turn::job_for;
use super::turn::known_thread;
use super::turn::read_step;
use super::turn::stepped;
use super::turn::want_session;
use super::turn::ActionView;
use super::turn::Event;
use super::turn::GoalView;
use super::turn::HostInfo;
use super::turn::Job;
use super::turn::PhaseView;
use super::turn::PurposeView;
use super::turn::Step;
use super::turn::Waiting;

verus! {

/// The frame is a notification with this method and these parameters.
pub open spec fn notifies(frame: JsonView, method: Seq<char>, params: JsonView) -> bool {
    &&& member(frame, "id"@) is None
    &&& member(frame, "method"@) == Some(JsonView::Text(method))
    &&& member(frame, "params"@) == Some(params)
}

/// The parameters name this thread and this turn.
pub open spec fn names_turn(params: JsonView, thread_id: Seq<char>, turn_id: Seq<char>) -> bool {
    &&& member(params, "threadId"@) == Some(JsonView::Text(thread_id))
    &&& member(params, "turnId"@) == Some(JsonView::Text(turn_id))
}

proof fn lemma_turn_methods()
    ensures
        "item/agentMessage/delta"@.len() == 23,
        "thread/tokenUsage/updated"@.len() == 25,
        "turn/completed"@.len() == 14,
        "error"@.len() == 5,
        "account/rateLimits/updated"@.len() == 26,
        ""@.len() == 0,
{
    reveal_strlit("item/agentMessage/delta");
    reveal_strlit("thread/tokenUsage/updated");
    reveal_strlit("turn/completed");
    reveal_strlit("error");
    reveal_strlit("account/rateLimits/updated");
    reveal_strlit("");
}

/// A part of the running turn's reply is put behind the text so far, as it came,
/// and a streaming turn shows exactly that part.
pub proof fn law_delta_is_taken_as_it_came(
    job: Job,
    state: StateView,
    thread_id: Seq<char>,
    turn_id: Seq<char>,
    text: Seq<char>,
    usage: TokenUsage,
    waiting: Waiting,
    frame: JsonView,
    params: JsonView,
    delta: Seq<char>,
    host: HostInfo,
)
    requires
        notifies(frame, "item/agentMessage/delta"@, params),
        names_turn(params, thread_id, turn_id),
        member(params, "delta"@) == Some(JsonView::Text(delta)),
    ensures
        ({
            let step = read_step(
                job,
                state,
                PhaseView::Reading { thread_id, turn_id, text, usage, waiting },
                Ok(Some(frame)),
                host,
            );
            &&& step.state == state
            &&& step.phase == (PhaseView::Reading {
                thread_id,
                turn_id,
                text: text + delta,
                usage,
                waiting: if job.streaming {
                    Waiting::Emit
                } else {
                    Waiting::Read
                },
            })
            &&& job.streaming ==> step.action == ActionView::Emit(StreamView::TextDelta(delta))
            &&& !job.streaming ==> step.action == ActionView::Read
        }),
{
    lemma_turn_methods();
}

/// A report of the running turn's tokens replaces the usage so far, and nothing
/// else.
pub proof fn law_usage_report_replaces_the_usage(
    job: Job,
    state: StateView,
    thread_id: Seq<char>,
    turn_id: Seq<char>,
    text: Seq<char>,
    usage: TokenUsage,
    waiting: Waiting,
    frame: JsonView,
    params: JsonView,
    host: HostInfo,
)
    requires
        notifies(frame, "thread/tokenUsage/updated"@, params),
        names_turn(params, thread_id, turn_id),
    ensures
        read_step(
            job,
            state,
            PhaseView::Reading { thread_id, turn_id, text, usage, waiting },
            Ok(Some(frame)),
            host,
        ) == (Step {
            state,
            phase: PhaseView::Reading {
                thread_id,
                turn_id,
                text,
                usage: usage_of(params),
                waiting: Waiting::Read,
            },
            action: ActionView::Read,
        }),
{
    lemma_turn_methods();
}

/// The completed thread's turn replies with the text so far, or with the text of
/// the turn's items where none has come, and with the usage so far. The thread
/// then has one message more than were sent, the reply. A streaming turn says that
/// it is complete before it replies.
pub proof fn law_completed_turn_replies(
    job: Job,
    state: StateView,
    thread_id: Seq<char>,
    turn_id: Seq<char>,
    text: Seq<char>,
    usage: TokenUsage,
    waiting: Waiting,
    frame: JsonView,
    params: JsonView,
    host: HostInfo,
)
    requires
        notifies(frame, "turn/completed"@, params),
        member(params, "threadId"@) == Some(JsonView::Text(thread_id)),
    ensures
        ({
            let step = read_step(
                job,
                state,
                PhaseView::Reading { thread_id, turn_id, text, usage, waiting },
                Ok(Some(frame)),
                host,
            );
            let whole = if text.len() > 0 {
                text
            } else {
                turn_text(params)
            };
            let reply = ReplyView {
                content: seq![Some(whole)],
                stop_reason: StopReason::EndTurn,
                tool_calls: 0,
                usage,
            };
            &&& step.state.session == state.session
            &&& !state.threads.contains_key(job.key@) ==> step.state.threads == state.threads
            &&& state.threads.contains_key(job.key@) ==> step.state.threads == state.threads.insert(
                job.key@,
                ThreadView {
                    thread_id: state.threads[job.key@].thread_id,
                    model: state.threads[job.key@].model,
                    sent_message_count: if job.message_count < usize::MAX {
                        (job.message_count + 1) as usize
                    } else {
                        usize::MAX
                    },
                },
            )
            &&& !job.streaming ==> step.phase == PhaseView::Finished && step.action
                == ActionView::Done(Ok(reply))
            &&& job.streaming ==> {
                &&& step.phase == (PhaseView::Completing { text: whole, usage })
                &&& step.action == ActionView::Emit(
                    StreamView::ContentComplete { stop_reason: StopReason::EndTurn, usage },
                )
                &&& stepped(job, step.state, step.phase, Event::Emitted, host) == (Step {
                    state: step.state,
                    phase: PhaseView::Finished,
                    action: ActionView::Done(Ok(reply)),
                })
            }
        }),
{
    lemma_turn_methods();
}

/// An error of the running turn, and a limit that is reached, end the turn with an
/// error and give up the session.
pub proof fn law_failed_turn_ends(
    job: Job,
    state: StateView,
    thread_id: Seq<char>,
    turn_id: Seq<char>,
    text: Seq<char>,
    usage: TokenUsage,
    waiting: Waiting,
    frame: JsonView,
    params: JsonView,
    host: HostInfo,
)
    ensures
        notifies(frame, "error"@, params) && names_turn(params, thread_id, turn_id) ==> read_step(
            job,
            state,
            PhaseView::Reading { thread_id, turn_id, text, usage, waiting },
            Ok(Some(frame)),
            host,
        ) == (Step {
            state: StateView { session: None, threads: state.threads },
            phase: PhaseView::Finished,
            action: ActionView::Done(Err(failed_turn(params))),
        }),
        notifies(frame, "account/rateLimits/updated"@, params) && limit_reached(params)
            ==> read_step(
            job,
            state,
            PhaseView::Reading { thread_id, turn_id, text, usage, waiting },
            Ok(Some(frame)),
            host,
        ) == (Step {
            state: StateView { session: None, threads: state.threads },
            phase: PhaseView::Finished,
            action: ActionView::Done(
                Err(LlmErrorView::RateLimited { retry_after_ms: 60_000 }),
            ),
        }),
{
    lemma_turn_methods();
}

/// Every frame that is no request and does not concern the running turn changes
/// nothing: the turn reads on.
pub proof fn law_other_frames_change_nothing(
    job: Job,
    state: StateView,
    thread_id: Seq<char>,
    turn_id: Seq<char>,
    text: Seq<char>,
    usage: TokenUsage,
    waiting: Waiting,
    frame: JsonView,
    params: JsonView,
    host: HostInfo,
)
    requires
        member(frame, "id"@) is None || member(frame, "method"@) is None,
        member(frame, "params"@) == Some(params) || (member(frame, "params"@) is None && params
            == JsonView::Null),
        ({
            let method = text_in(member(frame, "method"@));
            ||| method is None
            ||| method == Some("item/agentMessage/delta"@) && !(names_turn(
                params,
                thread_id,
                turn_id,
            ) && text_in(member(params, "delta"@)) is Some)
            ||| method == Some("thread/tokenUsage/updated"@) && !names_turn(
                params,
                thread_id,
                turn_id,
            )
            ||| method == Some("error"@) && !names_turn(params, thread_id, turn_id)
            ||| method == Some("turn/completed"@) && member(params, "threadId"@) != Some(
                JsonView::Text(thread_id),
            )
            ||| method == Some("account/rateLimits/updated"@) && !limit_reached(params)
            ||| method != Some("item/agentMessage/delta"@) && method != Some(
                "thread/tokenUsage/updated"@,
            ) && method != Some("error"@) && method != Some("turn/completed"@) && method != Some(
                "account/rateLimits/updated"@,
            )
        }),
    ensures
        read_step(
            job,
            state,
            PhaseView::Reading { thread_id, turn_id, text, usage, waiting },
            Ok(Some(frame)),
            host,
        ) == (Step {
            state,
            phase: PhaseView::Reading { thread_id, turn_id, text, usage, waiting: Waiting::Read },
            action: ActionView::Read,
        }),
{
    lemma_turn_methods();
}

/// A request of the server is answered with its rejection, and the turn stays as
/// it is.
pub proof fn law_request_is_answered_during_a_turn(
    job: Job,
    state: StateView,
    thread_id: Seq<char>,
    turn_id: Seq<char>,
    text: Seq<char>,
    usage: TokenUsage,
    waiting: Waiting,
    frame: JsonView,
    host: HostInfo,
)
    requires
        member(frame, "id"@) is Some,
        member(frame, "method"@) is Some,
    ensures
        rejection(frame) is Some,
        read_step(
            job,
            state,
            PhaseView::Reading { thread_id, turn_id, text, usage, waiting },
            Ok(Some(frame)),
            host,
        ) == (Step {
            state,
            phase: PhaseView::Reading { thread_id, turn_id, text, usage, waiting: Waiting::Write },
            action: ActionView::Write(rejection(frame)->Some_0),
        }),
{
}

/// A line that was read is its frame, without the white space around it; a blank
/// line changes nothing.
pub proof fn law_line_is_taken_as_its_frame(
    job: Job,
    state: StateView,
    phase: PhaseView,
    line: String,
    before: Seq<char>,
    core: Seq<char>,
    behind: Seq<char>,
    frame: JsonView,
    host: HostInfo,
)
    requires
        line@ == before + core + behind,
        blank(before),
        firm(core),
        blank(behind),
        expected(phase, Event::Read(ReadOutcome::Line(line))),
    ensures
        core.len() > 0 && json_parsed(core) == Ok::<JsonView, Seq<char>>(frame) ==> stepped(
            job,
            state,
            phase,
            Event::Read(ReadOutcome::Line(line)),
            host,
        ) == read_step(job, state, phase, Ok(Some(frame)), host),
        core.len() == 0 ==> stepped(
            job,
            state,
            phase,
            Event::Read(ReadOutcome::Line(line)),
            host,
        ) == (Step { state, phase, action: ActionView::Read }),
        core.len() > 0 && json_parsed(core) is Err ==> ({
            let step = stepped(job, state, phase, Event::Read(ReadOutcome::Line(line)), host);
            &&& step.phase == PhaseView::Finished
            &&& step.action == ActionView::Done(
                Err(
                    LlmErrorView::Parse(
                        "Failed to parse Codex app-server JSON frame: "@ + json_parsed(core)->Err_0
                            + ": "@ + core,
                    ),
                ),
            )
            &&& step.state.threads == state.threads
            &&& step.state.session == if phase is Reading {
                None
            } else {
                state.session
            }
        }),
{
    law_line_is_read_without_outer_white_space(line, before, core, behind);
}

/// Where the app-server cannot be read any more the turn fails with what happened;
/// a turn that is running gives up the session, a request leaves it.
pub proof fn law_unreadable_server_fails_the_turn(
    job: Job,
    state: StateView,
    phase: PhaseView,
    e: String,
    host: HostInfo,
)
    requires
        expected(phase, Event::Read(ReadOutcome::Closed)),
    ensures
        ({
            let kept = StateView {
                session: if phase is Reading {
                    None
                } else {
                    state.session
                },
                threads: state.threads,
            };
            &&& stepped(job, state, phase, Event::Read(ReadOutcome::Closed), host) == (Step {
                state: kept,
                phase: PhaseView::Finished,
                action: ActionView::Done(
                    Err(LlmErrorView::Http("Codex app-server closed stdout unexpectedly"@)),
                ),
            })
            &&& stepped(job, state, phase, Event::Read(ReadOutcome::Failed(e)), host) == (Step {
                state: kept,
                phase: PhaseView::Finished,
                action: ActionView::Done(
                    Err(LlmErrorView::Http("Failed to read from Codex app-server: "@ + e@)),
                ),
            })
        }),
{
    law_failures_say_what_failed(e);
}

/// What was written is followed by reading; a write that failed ends the turn, and
/// a running turn gives up the session. What was shown is followed by reading.
pub proof fn law_writing_is_followed_by_reading(
    job: Job,
    state: StateView,
    purpose: PurposeView,
    id: u64,
    thread_id: Seq<char>,
    turn_id: Seq<char>,
    text: Seq<char>,
    usage: TokenUsage,
    failure: WriteFailure,
    host: HostInfo,
)
    ensures
        ({
            let asking = PhaseView::Requesting { purpose, id, writing: true };
            let answering = PhaseView::Reading {
                thread_id,
                turn_id,
                text,
                usage,
                waiting: Waiting::Write,
            };
            let showing = PhaseView::Reading {
                thread_id,
                turn_id,
                text,
                usage,
                waiting: Waiting::Emit,
            };
            let reading = Step {
                state,
                phase: PhaseView::Reading {
                    thread_id,
                    turn_id,
                    text,
                    usage,
                    waiting: Waiting::Read,
                },
                action: ActionView::Read,
            };
            &&& stepped(job, state, asking, Event::Written(Ok(())), host) == (Step {
                state,
                phase: PhaseView::Requesting { purpose, id, writing: false },
                action: ActionView::Read,
            })
            &&& stepped(job, state, asking, Event::Written(Err(failure)), host) == (Step {
                state,
                phase: PhaseView::Finished,
                action: ActionView::Done(Err(write_failure(failure))),
            })
            &&& stepped(job, state, answering, Event::Written(Ok(())), host) == reading
            &&& stepped(job, state, answering, Event::Written(Err(failure)), host) == (Step {
                state: StateView { session: None, threads: state.threads },
                phase: PhaseView::Finished,
                action: ActionView::Done(Err(write_failure(failure))),
            })
            &&& stepped(job, state, showing, Event::Emitted, host) == reading
        }),
{
}

/// The request that asks for the goal: a new thread, or a turn on a thread.
pub open spec fn asks_for(step: Step, job: Job, goal: GoalView, id: u64, host: HostInfo) -> bool {
    match goal {
        GoalView::Thread => {
            &&& step.phase == (PhaseView::Requesting {
                purpose: PurposeView::StartThread,
                id,
                writing: true,
            })
            &&& step.action == ActionView::Write(
                request_frame(
                    id,
                    "thread/start"@,
                    thread_request(job.model@, option_text(host.cwd), option_text(job.system)),
                ),
            )
        },
        GoalView::Turn(thread_id) => {
            &&& step.phase == (PhaseView::Requesting {
                purpose: PurposeView::StartTurn(thread_id),
                id,
                writing: true,
            })
            &&& step.action == ActionView::Write(
                request_frame(
                    id,
                    "turn/start"@,
                    turn_request(thread_id, job.prompt@, job.model@, option_text(host.cwd)),
                ),
            )
        },
    }
}

/// A session is looked for first: one that there is is checked, otherwise an
/// app-server is started.
pub proof fn law_session_is_looked_for(state: StateView, goal: GoalView)
    ensures
        state.session is Some ==> want_session(state, goal) == (Step {
            state,
            phase: PhaseView::CheckingSession(goal),
            action: ActionView::CheckSession,
        }),
        state.session is None ==> want_session(state, goal) == (Step {
            state,
            phase: PhaseView::Spawning(goal),
            action: ActionView::Spawn,
        }),
{
}

/// A session that is alive is used: its next id goes to the request for the goal,
/// and the one after it is next. One that is dead is given up for a new one.
pub proof fn law_live_session_is_used(
    job: Job,
    threads: Map<Seq<char>, ThreadView>,
    id: u64,
    goal: GoalView,
    host: HostInfo,
)
    requires
        id < u64::MAX,
    ensures
        ({
            let state = StateView { session: Some(id), threads };
            let step = stepped(
                job,
                state,
                PhaseView::CheckingSession(goal),
                Event::Session { alive: true },
                host,
            );
            &&& step.state == (StateView { session: Some((id + 1) as u64), threads })
            &&& asks_for(step, job, goal, id, host)
            &&& stepped(
                job,
                state,
                PhaseView::CheckingSession(goal),
                Event::Session { alive: false },
                host,
            ) == (Step {
                state: StateView { session: None, threads },
                phase: PhaseView::Spawning(goal),
                action: ActionView::Spawn,
            })
        }),
{
}

/// Without a session there is nothing to use, and the turn fails.
pub proof fn law_missing_session_fails_the_turn(
    job: Job,
    threads: Map<Seq<char>, ThreadView>,
    goal: GoalView,
    host: HostInfo,
)
    ensures
        stepped(
            job,
            StateView { session: None, threads },
            PhaseView::CheckingSession(goal),
            Event::Session { alive: true },
            host,
        ) == (Step {
            state: StateView { session: None, threads },
            phase: PhaseView::Finished,
            action: ActionView::Done(
                Err(
                    LlmErrorView::Http("Codex app-server session was not available after spawn"@),
                ),
            ),
        }),
{
}

/// An app-server that was started is greeted with the request 1; once it has
/// answered, the request 2 asks for the goal, and 3 is next. One that did not
/// start fails the turn.
pub proof fn law_new_server_is_greeted_first(
    job: Job,
    state: StateView,
    goal: GoalView,
    failure: SpawnFailure,
    answer: JsonView,
    host: HostInfo,
)
    requires
        member(answer, "id"@) == Some(JsonView::Number(NumberView::Unsigned(1))),
        member(answer, "error"@) is None,
    ensures
        stepped(job, state, PhaseView::Spawning(goal), Event::Spawned(Err(failure)), host)
            == (Step {
            state,
            phase: PhaseView::Finished,
            action: ActionView::Done(Err(spawn_failure(failure))),
        }),
        stepped(job, state, PhaseView::Spawning(goal), Event::Spawned(Ok(())), host) == (Step {
            state,
            phase: PhaseView::Requesting {
                purpose: PurposeView::Initialize(goal),
                id: 1,
                writing: true,
            },
            action: ActionView::Write(
                request_frame(1, "initialize"@, initialize_request(host.version@)),
            ),
        }),
        ({
            let step = read_step(
                job,
                state,
                PhaseView::Requesting {
                    purpose: PurposeView::Initialize(goal),
                    id: 1,
                    writing: false,
                },
                Ok(Some(answer)),
                host,
            );
            &&& step.state == (StateView { session: Some(3), threads: state.threads })
            &&& asks_for(step, job, goal, 2, host)
        }),
{
}

/// A request that is answered with an error fails the turn with that error.
pub proof fn law_refused_request_fails_the_turn(
    job: Job,
    state: StateView,
    purpose: PurposeView,
    id: u64,
    answer: JsonView,
    error: JsonView,
    host: HostInfo,
)
    requires
        member(answer, "id"@) == Some(JsonView::Number(NumberView::Unsigned(id))),
        member(answer, "error"@) == Some(error),
    ensures
        read_step(
            job,
            state,
            PhaseView::Requesting { purpose, id, writing: false },
            Ok(Some(answer)),
            host,
        ) == (Step {
            state,
            phase: PhaseView::Finished,
            action: ActionView::Done(Err(response_error(error))),
        }),
{
}

/// A thread that was started is kept under the conversation, with the model and
/// nothing sent, and then a turn is wanted on it; an answer that names no thread
/// fails the turn and is shown.
pub proof fn law_started_thread_is_kept(
    job: Job,
    state: StateView,
    id: u64,
    answer: JsonView,
    result: JsonView,
    thread_id: Seq<char>,
    host: HostInfo,
)
    requires
        member(answer, "id"@) == Some(JsonView::Number(NumberView::Unsigned(id))),
        member(answer, "error"@) is None,
        member(answer, "result"@) == Some(result) || (member(answer, "result"@) is None && result
            == JsonView::Null),
    ensures
        ({
            let step = read_step(
                job,
                state,
                PhaseView::Requesting { purpose: PurposeView::StartThread, id, writing: false },
                Ok(Some(answer)),
                host,
            );
            &&& nested(result, "thread"@, "id"@) == Some(JsonView::Text(thread_id)) ==> {
                &&& step.state.session == state.session
                &&& step.state.threads == state.threads.insert(
                    job.key@,
                    ThreadView { thread_id, model: job.model@, sent_message_count: 0 },
                )
                &&& state.session is Some ==> step.phase == PhaseView::CheckingSession(
                    GoalView::Turn(thread_id),
                ) && step.action == ActionView::CheckSession
                &&& state.session is None ==> step.phase == PhaseView::Spawning(
                    GoalView::Turn(thread_id),
                ) && step.action == ActionView::Spawn
            }
            &&& text_in(nested(result, "thread"@, "id"@)) is None ==> step == (Step {
                state,
                phase: PhaseView::Finished,
                action: ActionView::Done(
                    Err(
                        LlmErrorView::Parse(
                            "Codex app-server thread/start response missing thread id: "@
                                + json_text(result),
                        ),
                    ),
                ),
            })
        }),
{
}

/// A turn that was started is read, with no text and no usage so far; an answer
/// that names no turn fails it and is shown.
pub proof fn law_started_turn_is_read(
    job: Job,
    state: StateView,
    thread_id: Seq<char>,
    id: u64,
    answer: JsonView,
    result: JsonView,
    turn_id: Seq<char>,
    host: HostInfo,
)
    requires
        member(answer, "id"@) == Some(JsonView::Number(NumberView::Unsigned(id))),
        member(answer, "error"@) is None,
        member(answer, "result"@) == Some(result) || (member(answer, "result"@) is None && result
            == JsonView::Null),
    ensures
        ({
            let step = read_step(
                job,
                state,
                PhaseView::Requesting {
                    purpose: PurposeView::StartTurn(thread_id),
                    id,
                    writing: false,
                },
                Ok(Some(answer)),
                host,
            );
            &&& nested(result, "turn"@, "id"@) == Some(JsonView::Text(turn_id)) ==> step == (Step {
                state,
                phase: PhaseView::Reading {
                    thread_id,
                    turn_id,
                    text: Seq::empty(),
                    usage: TokenUsage { input_tokens: 0, output_tokens: 0 },
                    waiting: Waiting::Read,
                },
                action: ActionView::Read,
            })
            &&& text_in(nested(result, "turn"@, "id"@)) is None ==> step == (Step {
                state,
                phase: PhaseView::Finished,
                action: ActionView::Done(
                    Err(
                        LlmErrorView::Parse(
                            "Codex app-server turn/start response missing turn id: "@ + json_text(
                                result,
                            ),
                        ),
                    ),
                ),
            })
        }),
{
}

/// While a request waits for its answer, a request of the server with another
/// number is rejected, and every other frame without the number is passed over.
pub proof fn law_answer_is_waited_for(
    job: Job,
    state: StateView,
    purpose: PurposeView,
    id: u64,
    frame: JsonView,
    host: HostInfo,
)
    requires
        unsigned_in(member(frame, "id"@)) != Some(id),
    ensures
        ({
            let step = read_step(
                job,
                state,
                PhaseView::Requesting { purpose, id, writing: false },
                Ok(Some(frame)),
                host,
            );
            let asked = unsigned_in(member(frame, "id"@)) is Some && text_in(
                member(frame, "method"@),
            ) is Some;
            &&& step.state == state
            &&& step.phase == (PhaseView::Requesting { purpose, id, writing: asked })
            &&& asked ==> Some(step.action->Write_0) == rejection(frame) && step.action is Write
            &&& !asked ==> step.action == ActionView::Read
        }),
{
}

/// A turn goes on with the thread of its conversation, where that was started for
/// the same model, and sends what is new there; otherwise it asks for a thread and
/// sends everything.
pub proof fn law_turn_begins_where_its_conversation_is(
    state: StateView,
    request: CompletionRequest,
    job: Job,
    streaming: bool,
)
    requires
        job_for(job, request, streaming, known_thread(state, request)),
    ensures
        job.key@ == conversation_of(request.messages@),
        job.model@ == request.model@,
        option_text(job.system) == option_text(request.system),
        job.message_count == request.messages@.len(),
        job.streaming == streaming,
        state.threads.contains_key(job.key@) && state.threads[job.key@].model == request.model@
            ==> {
            &&& first_goal(known_thread(state, request)) == GoalView::Turn(
                state.threads[job.key@].thread_id,
            )
            &&& job.prompt@ == prompt_text(
                to_send(request.messages@, Some(state.threads[job.key@].sent_message_count)),
                option_text(request.system),
            )
        },
        !state.threads.contains_key(job.key@) || state.threads[job.key@].model != request.model@
            ==> {
            &&& first_goal(known_thread(state, request)) == GoalView::Thread
            &&& job.prompt@ == prompt_text(request.messages@, option_text(request.system))
        },
{
}

/// What each phase waits for.
pub proof fn law_each_phase_waits_for_one_kind_of_event(
    goal: GoalView,
    purpose: PurposeView,
    id: u64,
    thread_id: Seq<char>,
    turn_id: Seq<char>,
    text: Seq<char>,
    usage: TokenUsage,
    event: Event,
)
    ensures
        expected(PhaseView::CheckingSession(goal), event) <==> event is Session,
        expected(PhaseView::Spawning(goal), event) <==> event is Spawned,
        expected(PhaseView::Requesting { purpose, id, writing: true }, event)
            <==> event is Written,
        expected(PhaseView::Requesting { purpose, id, writing: false }, event) <==> event is Read,
        expected(
            PhaseView::Reading { thread_id, turn_id, text, usage, waiting: Waiting::Write },
            event,
        ) <==> event is Written,
        expected(
            PhaseView::Reading { thread_id, turn_id, text, usage, waiting: Waiting::Read },
            event,
        ) <==> event is Read,
        expected(
            PhaseView::Reading { thread_id, turn_id, text, usage, waiting: Waiting::Emit },
            event,
        ) <==> event is Emitted,
        expected(PhaseView::Completing { text, usage }, event) <==> event is Emitted,
        !expected(PhaseView::Finished, event),
{
}

} // verus!
