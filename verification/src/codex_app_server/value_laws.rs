//! What the values of the driver stand for, part by part.

use vstd::prelude::*;

use crate::json::Json;
use crate::json::JsonView;
use crate::llm::block_text;
use crate::llm::text_reply;
use crate::llm::CompletionResponse;
use crate::llm::ContentBlock;
use crate::llm::LlmError;
use crate::llm::LlmErrorView;
use crate::llm::Message;
use crate::llm::ReplyView;
use crate::llm::StopReason;
use crate::llm::StreamEvent;
use crate::llm::StreamView;
use crate::llm::TokenUsage;
use super::prompt::referenced;
use super::prompt::sent_on;
use super::protocol::frame_value;
use super::protocol::json_value;
use super::protocol::read_value;
use super::threads::lookup;
use super::threads::thread_option;
use super::threads::DriverState;
use super::threads::ThreadEntry;
use super::threads::ThreadState;
use super::threads::ThreadTable;
use super::threads::ThreadView;
use super::turn::step_value;
use super::turn::Action;
use super::turn::ActionView;
use super::turn::Goal;
use super::turn::GoalView;
use super::turn::Phase;
use super::turn::PhaseView;
use super::turn::Purpose;
use super::turn::PurposeView;
use super::turn::Waiting;

verus! {

/// An error stands for its kind and its parts.
pub proof fn law_errors_stand_for_their_parts(text: String, retry_after_ms: u64, status: u16)
    ensures
        LlmError::Http(text)@ == LlmErrorView::Http(text@),
        LlmError::Parse(text)@ == LlmErrorView::Parse(text@),
        LlmError::AuthenticationFailed(text)@ == LlmErrorView::AuthenticationFailed(text@),
        (LlmError::RateLimited { retry_after_ms })@ == (LlmErrorView::RateLimited {
            retry_after_ms,
        }),
        (LlmError::Api { status, message: text })@ == (LlmErrorView::Api { status, message: text@ }),
{
}

/// A streamed event stands for its text, or for the end of the turn.
pub proof fn law_stream_events_stand_for_their_parts(
    text: String,
    stop_reason: StopReason,
    usage: TokenUsage,
)
    ensures
        (StreamEvent::TextDelta { text })@ == StreamView::TextDelta(text@),
        (StreamEvent::ContentComplete { stop_reason, usage })@ == (StreamView::ContentComplete {
            stop_reason,
            usage,
        }),
{
}

/// A reply stands for its blocks in order, plain text for its characters, for the
/// number of tools it calls, for why it ended and for what it used.
pub proof fn law_replies_stand_for_their_parts(
    reply: CompletionResponse,
    i: int,
    text: String,
    usage: TokenUsage,
)
    ensures
        reply@.content.len() == reply.content@.len(),
        0 <= i < reply.content@.len() ==> reply@.content[i] == block_text(reply.content@[i]),
        reply@.stop_reason == reply.stop_reason,
        reply@.tool_calls == reply.tool_calls@.len(),
        reply@.usage == reply.usage,
        block_text(ContentBlock::Text { text, provider_metadata: None }) == Some(text@),
        text_reply(text@, usage) == (ReplyView {
            content: seq![Some(text@)],
            stop_reason: StopReason::EndTurn,
            tool_calls: 0,
            usage,
        }),
{
}

/// Only plain text without metadata counts as the text of a block.
pub proof fn law_block_text_is_plain_text(b: ContentBlock)
    ensures
        block_text(b) is Some <==> b is Text && b->provider_metadata is None,
{
}

/// A thread stands for its parts, and a table of threads for what it last held
/// under each key.
pub proof fn law_threads_stand_for_their_parts(
    thread: ThreadState,
    table: ThreadTable,
    longer: ThreadTable,
    last: ThreadEntry,
)
    ensures
        thread@ == (ThreadView {
            thread_id: thread.thread_id@,
            model: thread.model@,
            sent_message_count: thread.sent_message_count,
        }),
        table.entries@.len() == 0 ==> table@ == Map::<Seq<char>, ThreadView>::empty(),
        longer.entries@ == table.entries@.push(last) ==> longer@ == table@.insert(
            last.key@,
            last.thread@,
        ),
        thread_option(Some(&thread)) == Some(thread@),
        thread_option(None) is None,
        sent_on(Some(&thread)) == Some(thread.sent_message_count),
        sent_on(None) is None,
{
    assert(table.entries@.push(last).drop_last() =~= table.entries@);
}

/// A thread is found under a key exactly where the table holds it there.
pub proof fn law_threads_are_found_under_their_keys(
    threads: Map<Seq<char>, ThreadView>,
    key: Seq<char>,
    thread: ThreadView,
)
    ensures
        lookup(threads, key) == Some(thread) <==> threads.dom().contains(key) && threads[key]
            == thread,
{
}

/// The driver's state stands for the next id of its session and for its threads.
pub proof fn law_state_stands_for_session_and_threads(state: DriverState)
    ensures
        state@.threads == state.threads@,
        state.session matches Some(s) ==> state@.session == Some(s.next_id),
        state.session is None ==> state@.session is None,
{
}

/// A goal and a purpose stand for their kind and thread.
pub proof fn law_purposes_stand_for_their_parts(thread_id: String, goal: Goal)
    ensures
        Goal::Thread@ == GoalView::Thread,
        (Goal::Turn { thread_id })@ == GoalView::Turn(thread_id@),
        Purpose::Initialize(goal)@ == PurposeView::Initialize(goal@),
        Purpose::StartThread@ == PurposeView::StartThread,
        (Purpose::StartTurn { thread_id })@ == PurposeView::StartTurn(thread_id@),
{
}

/// A phase stands for its kind and its parts.
pub proof fn law_phases_stand_for_their_parts(
    goal: Goal,
    purpose: Purpose,
    id: u64,
    writing: bool,
    thread_id: String,
    turn_id: String,
    text: String,
    usage: TokenUsage,
    waiting: Waiting,
)
    ensures
        Phase::CheckingSession(goal)@ == PhaseView::CheckingSession(goal@),
        Phase::Spawning(goal)@ == PhaseView::Spawning(goal@),
        (Phase::Requesting { purpose, id, writing })@ == (PhaseView::Requesting {
            purpose: purpose@,
            id,
            writing,
        }),
        (Phase::Reading { thread_id, turn_id, text, usage, waiting })@ == (PhaseView::Reading {
            thread_id: thread_id@,
            turn_id: turn_id@,
            text: text@,
            usage,
            waiting,
        }),
        (Phase::Completing { text, usage })@ == (PhaseView::Completing { text: text@, usage }),
        Phase::Finished@ == PhaseView::Finished,
{
}

/// An action stands for its kind and what it carries, and a step for the state,
/// the phase and the action.
pub proof fn law_actions_stand_for_what_they_carry(
    frame: Json,
    event: StreamEvent,
    reply: CompletionResponse,
    e: LlmError,
    state: DriverState,
    phase: Phase,
    action: Action,
)
    ensures
        Action::CheckSession@ == ActionView::CheckSession,
        Action::Spawn@ == ActionView::Spawn,
        Action::Write(frame)@ == ActionView::Write(frame@),
        Action::Read@ == ActionView::Read,
        Action::Emit(event)@ == ActionView::Emit(event@),
        Action::Done(Ok(reply))@ == ActionView::Done(Ok(reply@)),
        Action::Done(Err(e))@ == ActionView::Done(Err(e@)),
        step_value(state, (phase, action)).state == state@,
        step_value(state, (phase, action)).phase == phase@,
        step_value(state, (phase, action)).action == action@,
{
}

/// What was read stands for its frame or its error.
pub proof fn law_reads_stand_for_what_they_hold(frame: Json, e: LlmError)
    ensures
        json_value(Some(frame)) == Some(frame@),
        json_value(None) is None,
        frame_value(Ok(frame)) == Ok::<_, LlmErrorView>(frame@),
        frame_value(Err(e)) == Err::<JsonView, _>(e@),
        read_value(Ok(Some(frame))) == Ok::<_, LlmErrorView>(Some(frame@)),
        read_value(Ok(None)) == Ok::<_, LlmErrorView>(None::<JsonView>),
        read_value(Err(e)) == Err::<Option<JsonView>, _>(e@),
{
}

/// References to messages stand for the messages, in order.
pub proof fn law_references_stand_for_messages(messages: Seq<&Message>, i: int)
    ensures
        referenced(messages).len() == messages.len(),
        0 <= i < messages.len() ==> referenced(messages)[i] == *messages[i],
{
}

} // verus!
