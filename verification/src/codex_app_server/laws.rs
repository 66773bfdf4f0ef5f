//! What holds of the driver across calls and steps.

use vstd::prelude::*;

use crate::json::member;
use crate::json::nested;
use crate::json::text_in;
use crate::json::unsigned_in;
use crate::json::JsonView;
use crate::json::NumberView;
use crate::llm::CompletionRequest;
use crate::llm::Message;
use crate::llm::Role;
use crate::llm::TokenUsage;
use super::environment::secret_by_ending;
use super::environment::secrets_among;
use super::environment::sensitive_names;
use super::environment::withheld;
use super::prompt::conversation_of;
use super::prompt::flag_of;
use super::prompt::to_send;
use super::protocol::rejection;
use super::threads::lookup;
use super::threads::StateView;
use super::threads::ThreadView;
use super::turn::caught_up;
use super::turn::completed;
use super::turn::expected;
use super::turn::first_goal;
use super::turn::job_for;
use super::turn::known_thread;
use super::turn::on_request_frame;
use super::turn::on_session;
use super::turn::on_turn_frame;
use super::turn::stepped;
use super::turn::turn_news;
use super::turn::ActionView;
use super::turn::Event;
use super::turn::GoalView;
use super::turn::HostInfo;
use super::turn::Job;
use super::turn::PhaseView;
use super::turn::PurposeView;
use super::turn::TurnNews;
use super::turn::Waiting;

verus! {

/// Both spellings of the provider's prefix ask for the same model: the one
/// behind the prefix, or none where nothing or `default` stands there.
pub proof fn law_provider_prefixes_agree(model: Seq<char>)
    ensures
        flag_of("codex_app_server/"@ + model) == flag_of("codex-app-server/"@ + model),
        flag_of("codex_app_server/"@ + model) == (if model == ""@ || model == "default"@ {
            None
        } else {
            Some(model)
        }),
{
    reveal_strlit("codex_app_server/");
    reveal_strlit("codex-app-server/");
    let a = "codex_app_server/"@;
    let b = "codex-app-server/"@;
    assert((a + model).subrange(0, a.len() as int) =~= a);
    assert((b + model).subrange(0, b.len() as int) =~= b);
    assert((a + model).skip(a.len() as int) =~= model);
    assert((b + model).skip(b.len() as int) =~= model);
    assert(!a.is_prefix_of(b + model)) by {
        assert((b + model)[5] == '-');
        assert(a[5] == '_');
        if a.is_prefix_of(b + model) {
            assert((b + model).subrange(0, a.len() as int)[5] == (b + model)[5]);
        }
    }
}

/// An answer to a request of the server goes to that request, and grants
/// nothing: no decision but a refusal, no answers, no successful tool call.
pub proof fn law_rejection_grants_nothing(msg: JsonView)
    ensures
        rejection(msg) is Some <==> member(msg, "id"@) is Some,
        rejection(msg) matches Some(answer) ==> {
            &&& member(answer, "id"@) == member(msg, "id"@)
            &&& member(answer, "result"@) is Some <==> member(answer, "error"@) is None
            &&& (nested(answer, "result"@, "decision"@) matches Some(d) ==> d == JsonView::Text(
                "decline"@,
            ) || d == JsonView::Text("denied"@))
            &&& (nested(answer, "result"@, "answers"@) matches Some(a) ==> a == JsonView::Object(
                Map::empty(),
            ))
            &&& (nested(answer, "result"@, "success"@) matches Some(s) ==> s == JsonView::Bool(
                false,
            ))
        },
{
    reveal_strlit("id");
    reveal_strlit("result");
    reveal_strlit("error");
    reveal_strlit("decision");
    reveal_strlit("answers");
    reveal_strlit("success");
    reveal_strlit("contentItems");
    assert("id"@.len() == 2 && "result"@.len() == 6 && "error"@.len() == 5);
    assert("decision"@.len() == 8 && "answers"@.len() == 7 && "success"@.len() == 7);
    assert("contentItems"@.len() == 12);
    assert("answers"@[0] == 'a' && "success"@[0] == 's');
}

/// While a request waits for its answer, a request of the server that has a
/// number and a method is rejected, and everything else stays as it is.
pub proof fn law_server_request_is_rejected_while_requesting(
    job: Job,
    state: StateView,
    purpose: PurposeView,
    id: u64,
    frame: JsonView,
    host: HostInfo,
)
    requires
        unsigned_in(member(frame, "id"@)) is Some,
        unsigned_in(member(frame, "id"@)) != Some(id),
        text_in(member(frame, "method"@)) is Some,
    ensures
        ({
            let next = on_request_frame(job, state, purpose, id, frame, host);
            &&& rejection(frame) is Some
            &&& next.action == ActionView::Write(rejection(frame)->Some_0)
            &&& next.state == state
            &&& next.phase == (PhaseView::Requesting { purpose, id, writing: true })
        }),
{
}

/// While a turn runs, every request of the server is rejected, and what the
/// turn has brought stays as it is.
pub proof fn law_server_request_is_rejected_while_reading(
    job: Job,
    state: StateView,
    thread_id: Seq<char>,
    turn_id: Seq<char>,
    text: Seq<char>,
    usage: TokenUsage,
    frame: JsonView,
)
    requires
        member(frame, "id"@) is Some,
        member(frame, "method"@) is Some,
    ensures
        ({
            let next = on_turn_frame(job, state, thread_id, turn_id, text, usage, frame);
            &&& rejection(frame) is Some
            &&& next.action == ActionView::Write(rejection(frame)->Some_0)
            &&& next.state == state
            &&& next.phase == (PhaseView::Reading {
                thread_id,
                turn_id,
                text,
                usage,
                waiting: Waiting::Write,
            })
        }),
{
}

/// A session is given up where its process has ended or a running turn fails,
/// and nowhere else; a request that fails changes nothing.
pub proof fn law_session_is_given_up_by_failed_turns(
    job: Job,
    state: StateView,
    phase: PhaseView,
    event: Event,
    host: HostInfo,
)
    requires
        expected(phase, event),
    ensures
        ({
            let next = stepped(job, state, phase, event, host);
            let ended = phase is CheckingSession && event == (Event::Session { alive: false });
            let turn_failed = phase is Reading && next.action is Done && next.action->Done_0 is Err;
            &&& ended || turn_failed ==> next.state.session is None
            &&& state.session is Some && next.state.session is None ==> ended || turn_failed
            &&& phase is Requesting && next.action is Done ==> next.state == state
        }),
{
}

/// A turn leaves every conversation but its own as it was.
pub proof fn law_other_conversations_are_untouched(
    job: Job,
    state: StateView,
    phase: PhaseView,
    event: Event,
    host: HostInfo,
    key: Seq<char>,
)
    requires
        key != job.key@,
    ensures
        lookup(stepped(job, state, phase, event, host).state.threads, key) == lookup(
            state.threads,
            key,
        ),
{
}

/// The id of a request that waits for its answer was issued on the session.
pub open spec fn issued(phase: PhaseView, state: StateView) -> bool {
    phase matches PhaseView::Requesting { purpose, id, .. } ==> {
        ||| purpose is Initialize && id == 1
        ||| state.session is Some && id < state.session->Some_0
    }
}

/// Request ids on a session only grow: the one that waits for its answer stays
/// below the next one.
pub proof fn law_request_ids_grow(
    job: Job,
    state: StateView,
    phase: PhaseView,
    event: Event,
    host: HostInfo,
)
    requires
        expected(phase, event),
        issued(phase, state),
        phase is CheckingSession ==> (state.session matches Some(n) ==> n < u64::MAX),
    ensures
        ({
            let next = stepped(job, state, phase, event, host);
            &&& issued(next.phase, next.state)
            &&& state.session is Some && next.state.session is Some && !(
            phase matches PhaseView::Requesting { purpose, .. } && purpose is Initialize)
                ==> state.session->Some_0 <= next.state.session->Some_0
        }),
{
}

/// A request carries the session's next id, which is then used up.
pub proof fn law_request_takes_the_next_id(
    job: Job,
    state: StateView,
    goal: GoalView,
    host: HostInfo,
)
    requires
        state.session is Some,
        state.session->Some_0 < u64::MAX,
    ensures
        ({
            let next = on_session(job, state, goal, host);
            let id = state.session->Some_0;
            &&& next.action is Write
            &&& member(next.action->Write_0, "id"@) == Some(
                JsonView::Number(NumberView::Unsigned(id)),
            )
            &&& next.phase is Requesting && next.phase->id == id
            &&& next.state.session == Some((id + 1) as u64)
            &&& next.state.threads == state.threads
        }),
{
    reveal_strlit("id");
    reveal_strlit("method");
    reveal_strlit("params");
    assert("id"@.len() == 2 && "method"@.len() == 6 && "params"@.len() == 6);
}

/// The parts of the reply that frames bring, one after another.
pub open spec fn deltas_in(
    thread_id: Seq<char>,
    turn_id: Seq<char>,
    frames: Seq<JsonView>,
) -> Seq<char>
    decreases frames.len(),
{
    if frames.len() == 0 {
        seq![]
    } else {
        let before = deltas_in(thread_id, turn_id, frames.drop_last());
        match turn_news(thread_id, turn_id, frames.last()) {
            TurnNews::Delta(delta) => before + delta,
            _ => before,
        }
    }
}

/// The usage that frames report last, or zero.
pub open spec fn usage_in(
    thread_id: Seq<char>,
    turn_id: Seq<char>,
    frames: Seq<JsonView>,
) -> TokenUsage
    decreases frames.len(),
{
    if frames.len() == 0 {
        TokenUsage { input_tokens: 0, output_tokens: 0 }
    } else {
        match turn_news(thread_id, turn_id, frames.last()) {
            TurnNews::Usage(usage) => usage,
            _ => usage_in(thread_id, turn_id, frames.drop_last()),
        }
    }
}

/// A frame does not end the turn.
pub open spec fn passes(thread_id: Seq<char>, turn_id: Seq<char>, frame: JsonView) -> bool {
    !(turn_news(thread_id, turn_id, frame) is Completed) && !(turn_news(
        thread_id,
        turn_id,
        frame,
    ) is Failed)
}

/// The phase once what was to be written or shown has been.
pub open spec fn acknowledged(phase: PhaseView) -> PhaseView {
    match phase {
        PhaseView::Reading { thread_id, turn_id, text, usage, .. } => PhaseView::Reading {
            thread_id,
            turn_id,
            text,
            usage,
            waiting: Waiting::Read,
        },
        _ => phase,
    }
}

/// The phase of a new turn after the given frames, each acknowledged before the
/// next.
pub open spec fn phase_after(
    job: Job,
    state: StateView,
    thread_id: Seq<char>,
    turn_id: Seq<char>,
    frames: Seq<JsonView>,
) -> PhaseView
    decreases frames.len(),
{
    if frames.len() == 0 {
        PhaseView::Reading {
            thread_id,
            turn_id,
            text: seq![],
            usage: TokenUsage { input_tokens: 0, output_tokens: 0 },
            waiting: Waiting::Read,
        }
    } else {
        match phase_after(job, state, thread_id, turn_id, frames.drop_last()) {
            PhaseView::Reading { text, usage, .. } => acknowledged(
                on_turn_frame(job, state, thread_id, turn_id, text, usage, frames.last()).phase,
            ),
            ended => ended,
        }
    }
}

/// A write or a shown event that succeeds brings the turn back to reading.
pub proof fn law_acknowledged_turn_reads_on(
    job: Job,
    state: StateView,
    phase: PhaseView,
    event: Event,
    host: HostInfo,
)
    requires
        phase is Reading,
        expected(phase, event),
        event is Emitted || event == Event::Written(Ok(())),
    ensures
        stepped(job, state, phase, event, host).phase == acknowledged(phase),
        stepped(job, state, phase, event, host).action == ActionView::Read,
        stepped(job, state, phase, event, host).state == state,
{
}

/// The text of a running turn is the parts of its reply, one after another, and
/// its usage the one reported last; frames of other turns add nothing.
pub proof fn law_turn_collects_its_deltas(
    job: Job,
    state: StateView,
    thread_id: Seq<char>,
    turn_id: Seq<char>,
    frames: Seq<JsonView>,
)
    requires
        forall|i: int| 0 <= i < frames.len() ==> passes(thread_id, turn_id, #[trigger] frames[i]),
    ensures
        phase_after(job, state, thread_id, turn_id, frames) == (PhaseView::Reading {
            thread_id,
            turn_id,
            text: deltas_in(thread_id, turn_id, frames),
            usage: usage_in(thread_id, turn_id, frames),
            waiting: Waiting::Read,
        }),
    decreases frames.len(),
{
    if frames.len() > 0 {
        let front = frames.drop_last();
        assert forall|i: int| 0 <= i < front.len() implies passes(
            thread_id,
            turn_id,
            #[trigger] front[i],
        ) by {
            assert(front[i] == frames[i]);
        }
        law_turn_collects_its_deltas(job, state, thread_id, turn_id, front);
        assert(passes(thread_id, turn_id, frames[frames.len() - 1]));
    }
}

/// A turn that completes replies with the parts that came, or, where none came,
/// with the text that the completion brings.
pub proof fn law_turn_replies_with_its_text(
    job: Job,
    state: StateView,
    thread_id: Seq<char>,
    turn_id: Seq<char>,
    frames: Seq<JsonView>,
    last: JsonView,
)
    requires
        forall|i: int| 0 <= i < frames.len() ==> passes(thread_id, turn_id, #[trigger] frames[i]),
        turn_news(thread_id, turn_id, last) is Completed,
    ensures
        ({
            let text = deltas_in(thread_id, turn_id, frames);
            let usage = usage_in(thread_id, turn_id, frames);
            let whole = turn_news(thread_id, turn_id, last)->Completed_0;
            &&& phase_after(job, state, thread_id, turn_id, frames) == (PhaseView::Reading {
                thread_id,
                turn_id,
                text,
                usage,
                waiting: Waiting::Read,
            })
            &&& on_turn_frame(job, state, thread_id, turn_id, text, usage, last) == completed(
                job,
                state,
                if text.len() == 0 {
                    whole
                } else {
                    text
                },
                usage,
            )
        }),
{
    law_turn_collects_its_deltas(job, state, thread_id, turn_id, frames);
}

proof fn lemma_same_conversation(messages: Seq<Message>, more: Seq<Message>, i: int)
    requires
        0 <= i < messages.len(),
        messages[i].role != Role::System,
    ensures
        conversation_of(messages + more) == conversation_of(messages),
    decreases messages.len(),
{
    assert((messages + more)[0] == messages[0]);
    if messages[0].role == Role::System {
        assert((messages + more).skip(1) =~= messages.skip(1) + more);
        assert(messages.skip(1)[i - 1] == messages[i]);
        lemma_same_conversation(messages.skip(1), more, i - 1);
    }
}

/// Once a turn has completed, the conversation goes on in its thread: the next
/// request for the same model starts no thread, and sends what has come since
/// the reply.
pub proof fn law_conversation_goes_on(
    job: Job,
    state: StateView,
    request: CompletionRequest,
    streaming: bool,
    known: Option<ThreadView>,
    text: Seq<char>,
    usage: TokenUsage,
    reply: Message,
    new: Seq<Message>,
    next: CompletionRequest,
    i: int,
)
    requires
        job_for(job, request, streaming, known),
        lookup(state.threads, job.key@) is Some,
        lookup(state.threads, job.key@)->Some_0.model == request.model@,
        0 <= i < request.messages@.len(),
        request.messages@[i].role != Role::System,
        request.messages@.len() < usize::MAX,
        next.model@ == request.model@,
        next.messages@ == request.messages@ + seq![reply] + new,
        new.len() > 0,
    ensures
        ({
            let after = completed(job, state, text, usage).state;
            let thread = lookup(state.threads, job.key@)->Some_0;
            let found = known_thread(after, next);
            &&& found is Some
            &&& first_goal(found) == GoalView::Turn(thread.thread_id)
            &&& to_send(next.messages@, Some(found->Some_0.sent_message_count)) == new
        }),
{
    lemma_same_conversation(request.messages@, seq![reply] + new, i);
    assert(next.messages@ =~= request.messages@ + (seq![reply] + new));
    assert(completed(job, state, text, usage).state == caught_up(job, state));
    let n = request.messages@.len() as int;
    assert(next.messages@.skip(n + 1) =~= new);
}

proof fn lemma_secret_is_among(names: Seq<Seq<char>>, name: Seq<char>)
    ensures
        secrets_among(names).contains(name) <==> names.contains(name) && secret_by_ending(name),
    decreases names.len(),
{
    if names.len() > 0 {
        let front = names.drop_last();
        let before = secrets_among(front);
        lemma_secret_is_among(front, name);
        assert(names =~= front.push(names.last()));
        if before.contains(name) {
            let k = choose|k: int| 0 <= k < before.len() && before[k] == name;
            assert(secrets_among(names)[k] == name);
        }
        if front.contains(name) {
            let k = choose|k: int| 0 <= k < front.len() && front[k] == name;
            assert(names[k] == name);
        }
        if names.last() == name {
            assert(names[names.len() - 1] == name);
            if secret_by_ending(name) {
                assert(secrets_among(names)[before.len() as int] == name);
            }
        }
        if secrets_among(names).contains(name) && !before.contains(name) {
            let k = choose|k: int|
                0 <= k < secrets_among(names).len() && secrets_among(names)[k] == name;
            if k < before.len() {
                assert(before[k] == name);
            }
        }
        if names.contains(name) && !front.contains(name) {
            let k = choose|k: int| 0 <= k < names.len() && names[k] == name;
            if k < front.len() {
                assert(front[k] == name);
            }
        }
    }
}

/// A variable is withheld if it is one of the known keys, or is set and ends
/// like a secret; the Codex CLI's own variables are handed on.
pub proof fn law_secrets_are_withheld(names: Seq<Seq<char>>, name: Seq<char>)
    ensures
        withheld(names).contains(name) <==> sensitive_names().contains(name) || (names.contains(
            name,
        ) && secret_by_ending(name)),
        "CODEX_"@.is_prefix_of(name) ==> !secret_by_ending(name),
{
    lemma_secret_is_among(names, name);
    let exact = sensitive_names();
    let among = secrets_among(names);
    if exact.contains(name) {
        let k = choose|k: int| 0 <= k < exact.len() && exact[k] == name;
        assert(withheld(names)[k] == name);
    }
    if among.contains(name) {
        let k = choose|k: int| 0 <= k < among.len() && among[k] == name;
        assert(withheld(names)[exact.len() + k] == name);
    }
    if withheld(names).contains(name) {
        let k = choose|k: int| 0 <= k < withheld(names).len() && withheld(names)[k] == name;
        if k < exact.len() {
            assert(exact[k] == name);
        } else {
            assert(among[k - exact.len()] == name);
        }
    }
}

} // verus!
