//! What holds of the frames that are sent and read, and of the environment of the
//! app-server, stated on members and texts themselves.

use vstd::prelude::*;
use vstd::utf8::encode_utf8;
use vstd::utf8::encode_utf8_decode_utf8;
use vstd::utf8::encode_utf8_valid_utf8;
use vstd::utf8::is_ascii_chars;

use crate::json::items_in;
use crate::json::member;
use crate::json::nested;
use crate::json::signed_in;
use crate::json::text_in;
use crate::json::text_or_null;
use crate::json::unsigned_in;
use crate::json::JsonView;
use crate::json::NumberView;
use crate::llm::LlmErrorView;
use crate::llm::TokenUsage;
use crate::text::ascii_lower;
use crate::text::ascii_upper;
use crate::text::has_text;
use crate::text::same_ignoring_ascii_case;
use crate::text_laws::blank;
use crate::text_laws::firm;
use crate::text_laws::law_trim_takes_outer_white_space;
use crate::trusted::json_parsed;
use crate::trusted::lowercase_text;
use crate::trusted::uppercase_text;
use super::detected;
use super::environment::filled;
use super::environment::secret_by_ending;
use super::environment::secrets_among;
use super::environment::sensitive_names;
use super::environment::server_args;
use super::environment::upper_text;
use super::environment::withheld;
use super::prompt::flag_of;
use super::protocol::agent_text;
use super::protocol::failed_turn;
use super::protocol::initialize_request;
use super::protocol::limit_reached;
use super::protocol::lower_text;
use super::protocol::mapped_error;
use super::protocol::read_result;
use super::protocol::rejection;
use super::protocol::request_frame;
use super::protocol::response_error;
use super::protocol::spawn_failure;
use super::protocol::thread_request;
use super::protocol::turn_request;
use super::protocol::turn_text;
use super::protocol::usage_of;
use super::protocol::write_failure;
use super::protocol::ReadOutcome;
use super::protocol::SpawnFailure;
use super::protocol::WriteFailure;
use super::CommandOutput;
use super::DEFAULT_MESSAGE_TIMEOUT_SECS;

verus! {

/// A request holds its id, its method and its parameters, and nothing else.
pub proof fn law_request_holds_its_parts(id: u64, method: Seq<char>, params: JsonView)
    ensures
        member(request_frame(id, method, params), "id"@) == Some(
            JsonView::Number(NumberView::Unsigned(id)),
        ),
        member(request_frame(id, method, params), "method"@) == Some(JsonView::Text(method)),
        member(request_frame(id, method, params), "params"@) == Some(params),
        forall|key: Seq<char>| #[trigger]
            member(request_frame(id, method, params), key) is Some ==> key == "id"@ || key
                == "method"@ || key == "params"@,
{
    reveal_strlit("id");
    reveal_strlit("method");
    reveal_strlit("params");
    assert("id"@.len() == 2 && "method"@.len() == 6 && "params"@.len() == 6);
    assert("method"@[0] == 'm' && "params"@[0] == 'p');
}

/// The client introduces itself as OpenFang with its version, and asks for the
/// experimental interface and for nothing else.
pub proof fn law_client_introduces_itself(version: Seq<char>)
    ensures
        ({
            let hello = initialize_request(version);
            &&& nested(hello, "clientInfo"@, "name"@) == Some(JsonView::Text("openfang"@))
            &&& nested(hello, "clientInfo"@, "title"@) == Some(JsonView::Text("OpenFang"@))
            &&& nested(hello, "clientInfo"@, "version"@) == Some(JsonView::Text(version))
            &&& nested(hello, "capabilities"@, "experimentalApi"@) == Some(JsonView::Bool(true))
            &&& nested(hello, "capabilities"@, "requestAttestation"@) == Some(
                JsonView::Bool(false),
            )
            &&& nested(hello, "capabilities"@, "optOutNotificationMethods"@) == Some(
                JsonView::Array(seq![]),
            )
            &&& forall|key: Seq<char>| #[trigger]
                member(hello, key) is Some ==> key == "clientInfo"@ || key == "capabilities"@
        }),
{
    reveal_strlit("clientInfo");
    reveal_strlit("capabilities");
    reveal_strlit("name");
    reveal_strlit("title");
    reveal_strlit("version");
    reveal_strlit("experimentalApi");
    reveal_strlit("requestAttestation");
    reveal_strlit("optOutNotificationMethods");
    assert("clientInfo"@.len() == 10 && "capabilities"@.len() == 12);
    assert("name"@.len() == 4 && "title"@.len() == 5 && "version"@.len() == 7);
    assert("experimentalApi"@.len() == 15 && "requestAttestation"@.len() == 18);
    assert("optOutNotificationMethods"@.len() == 25);
}

/// A thread is asked for with the model, the working directory and the system
/// prompt, read-only, without approvals, and kept nowhere.
pub proof fn law_thread_is_read_only(
    model: Seq<char>,
    cwd: Option<Seq<char>>,
    system: Option<Seq<char>>,
)
    ensures
        ({
            let asked = thread_request(model, cwd, system);
            &&& member(asked, "sandbox"@) == Some(JsonView::Text("read-only"@))
            &&& member(asked, "approvalPolicy"@) == Some(JsonView::Text("never"@))
            &&& member(asked, "ephemeral"@) == Some(JsonView::Bool(true))
            &&& member(asked, "experimentalRawEvents"@) == Some(JsonView::Bool(false))
            &&& member(asked, "persistExtendedHistory"@) == Some(JsonView::Bool(false))
            &&& member(asked, "modelProvider"@) == Some(JsonView::Null)
            &&& member(asked, "serviceName"@) == Some(JsonView::Text("openfang"@))
            &&& member(asked, "model"@) == Some(text_or_null(flag_of(model)))
            &&& member(asked, "cwd"@) == Some(text_or_null(cwd))
            &&& member(asked, "baseInstructions"@) == Some(text_or_null(system))
            &&& asked is Object && asked->Object_0.dom() == set![
                "sandbox"@,
                "approvalPolicy"@,
                "ephemeral"@,
                "experimentalRawEvents"@,
                "persistExtendedHistory"@,
                "modelProvider"@,
                "serviceName"@,
                "model"@,
                "cwd"@,
                "baseInstructions"@,
            ]
        }),
{
    reveal_strlit("sandbox");
    reveal_strlit("approvalPolicy");
    reveal_strlit("ephemeral");
    reveal_strlit("experimentalRawEvents");
    reveal_strlit("persistExtendedHistory");
    reveal_strlit("modelProvider");
    reveal_strlit("serviceName");
    reveal_strlit("model");
    reveal_strlit("cwd");
    reveal_strlit("baseInstructions");
    assert("sandbox"@.len() == 7 && "approvalPolicy"@.len() == 14 && "ephemeral"@.len() == 9);
    assert("experimentalRawEvents"@.len() == 21 && "persistExtendedHistory"@.len() == 22);
    assert("modelProvider"@.len() == 13 && "serviceName"@.len() == 11 && "model"@.len() == 5);
    assert("cwd"@.len() == 3 && "baseInstructions"@.len() == 16);
    let asked = thread_request(model, cwd, system);
    assert(asked->Object_0.dom() =~= set![
        "sandbox"@,
        "approvalPolicy"@,
        "ephemeral"@,
        "experimentalRawEvents"@,
        "persistExtendedHistory"@,
        "modelProvider"@,
        "serviceName"@,
        "model"@,
        "cwd"@,
        "baseInstructions"@,
    ]);
}

/// A turn is asked for on its thread with the prompt as its only input, and
/// without approvals.
pub proof fn law_turn_carries_the_prompt(
    thread_id: Seq<char>,
    prompt: Seq<char>,
    model: Seq<char>,
    cwd: Option<Seq<char>>,
)
    ensures
        ({
            let asked = turn_request(thread_id, prompt, model, cwd);
            &&& member(asked, "threadId"@) == Some(JsonView::Text(thread_id))
            &&& member(asked, "model"@) == Some(text_or_null(flag_of(model)))
            &&& member(asked, "cwd"@) == Some(text_or_null(cwd))
            &&& member(asked, "approvalPolicy"@) == Some(JsonView::Text("never"@))
            &&& items_in(member(asked, "input"@)) matches Some(items) && {
                &&& items.len() == 1
                &&& member(items[0], "type"@) == Some(JsonView::Text("text"@))
                &&& member(items[0], "text"@) == Some(JsonView::Text(prompt))
                &&& member(items[0], "text_elements"@) == Some(JsonView::Array(seq![]))
                &&& items[0] is Object && items[0]->Object_0.dom() == set![
                    "type"@,
                    "text"@,
                    "text_elements"@,
                ]
            }
            &&& asked is Object && asked->Object_0.dom() == set![
                "threadId"@,
                "model"@,
                "cwd"@,
                "approvalPolicy"@,
                "input"@,
            ]
        }),
{
    reveal_strlit("threadId");
    reveal_strlit("model");
    reveal_strlit("cwd");
    reveal_strlit("approvalPolicy");
    reveal_strlit("input");
    reveal_strlit("type");
    reveal_strlit("text");
    reveal_strlit("text_elements");
    assert("threadId"@.len() == 8 && "model"@.len() == 5 && "cwd"@.len() == 3);
    assert("approvalPolicy"@.len() == 14 && "input"@.len() == 5);
    assert("model"@[0] == 'm' && "input"@[0] == 'i');
    assert("type"@.len() == 4 && "text"@.len() == 4 && "text_elements"@.len() == 13);
    assert("type"@[1] == 'y' && "text"@[1] == 'e');
    let asked = turn_request(thread_id, prompt, model, cwd);
    let items = asked->Object_0["input"@]->Array_0;
    assert(items[0]->Object_0.dom() =~= set!["type"@, "text"@, "text_elements"@]);
    assert(asked->Object_0.dom() =~= set![
        "threadId"@,
        "model"@,
        "cwd"@,
        "approvalPolicy"@,
        "input"@,
    ]);
}

/// The methods of the server's requests that have an answer of their own.
pub open spec fn answered_method(method: Seq<char>) -> bool {
    ||| method == "item/commandExecution/requestApproval"@
    ||| method == "item/fileChange/requestApproval"@
    ||| method == "applyPatchApproval"@
    ||| method == "execCommandApproval"@
    ||| method == "item/tool/requestUserInput"@
    ||| method == "item/tool/call"@
}

/// Every request of the server is answered under its id: approvals are declined,
/// questions stay unanswered, tools fail, and everything else is unsupported.
pub proof fn law_server_requests_are_answered(msg: JsonView, id: JsonView, method: Seq<char>)
    requires
        member(msg, "id"@) == Some(id),
        text_in(member(msg, "method"@)) == Some(method),
    ensures
        rejection(msg) matches Some(answer) && {
            &&& member(answer, "id"@) == Some(id)
            &&& method == "item/commandExecution/requestApproval"@ || method
                == "item/fileChange/requestApproval"@ ==> nested(answer, "result"@, "decision"@)
                == Some(JsonView::Text("decline"@))
            &&& method == "applyPatchApproval"@ || method == "execCommandApproval"@ ==> nested(
                answer,
                "result"@,
                "decision"@,
            ) == Some(JsonView::Text("denied"@))
            &&& method == "item/tool/requestUserInput"@ ==> nested(answer, "result"@, "answers"@)
                == Some(JsonView::Object(Map::empty()))
            &&& method == "item/tool/call"@ ==> {
                &&& nested(answer, "result"@, "contentItems"@) == Some(JsonView::Array(seq![]))
                &&& nested(answer, "result"@, "success"@) == Some(JsonView::Bool(false))
            }
            &&& answered_method(method) ==> member(answer, "error"@) is None
            &&& !answered_method(method) ==> {
                &&& member(answer, "result"@) is None
                &&& nested(answer, "error"@, "code"@) == Some(
                    JsonView::Number(NumberView::Negative((-32601) as i64)),
                )
                &&& nested(answer, "error"@, "message"@) == Some(
                    JsonView::Text(
                        "OpenFang Codex app-server driver does not support server request `"@
                            + method + "`"@,
                    ),
                )
            }
        },
{
    lemma_methods_differ();
    reveal_strlit("id");
    reveal_strlit("result");
    reveal_strlit("error");
    reveal_strlit("code");
    reveal_strlit("message");
    reveal_strlit("contentItems");
    reveal_strlit("success");
    assert("id"@.len() == 2 && "result"@.len() == 6 && "error"@.len() == 5);
    assert("code"@.len() == 4 && "message"@.len() == 7);
    assert("contentItems"@.len() == 12 && "success"@.len() == 7);
}

/// A request of the server that names no method is answered as the method
/// `unknown`; what has no id is not answered.
pub proof fn law_nameless_requests_are_unknown(msg: JsonView, named: JsonView)
    requires
        member(msg, "id"@) == member(named, "id"@),
        text_in(member(msg, "method"@)) is None,
        text_in(member(named, "method"@)) == Some("unknown"@),
    ensures
        rejection(msg) == rejection(named),
        rejection(msg) is None <==> member(msg, "id"@) is None,
{
}

proof fn lemma_methods_differ()
    ensures
        "item/commandExecution/requestApproval"@.len() == 37,
        "item/fileChange/requestApproval"@.len() == 31,
        "applyPatchApproval"@.len() == 18,
        "execCommandApproval"@.len() == 19,
        "item/tool/requestUserInput"@.len() == 26,
        "item/tool/call"@.len() == 14,
{
    reveal_strlit("item/commandExecution/requestApproval");
    reveal_strlit("item/fileChange/requestApproval");
    reveal_strlit("applyPatchApproval");
    reveal_strlit("execCommandApproval");
    reveal_strlit("item/tool/requestUserInput");
    reveal_strlit("item/tool/call");
}

/// `word` stands in the message, in whatever case its letters are.
pub open spec fn mentions(message: Seq<char>, word: Seq<char>) -> bool {
    exists|a: Seq<char>, w: Seq<char>, b: Seq<char>|
        #![trigger a + w + b]
        message == a + w + b && same_ignoring_ascii_case(w, word)
}

/// The text is the same in lower case.
pub open spec fn lower_already(word: Seq<char>) -> bool {
    forall|i: int| 0 <= i < word.len() ==> !('A' <= #[trigger] word[i] <= 'Z')
}

proof fn lemma_mentions(message: Seq<char>, word: Seq<char>)
    requires
        is_ascii_chars(message),
        lower_already(word),
    ensures
        has_text(lower_text(message), word) <==> mentions(message, word),
{
    let lower = lower_text(message);
    assert(lower == message.map_values(|c: char| ascii_lower(c)));
    if has_text(lower, word) {
        let i = choose|i: int|
            0 <= i && i + word.len() <= lower.len() && #[trigger] lower.subrange(
                i,
                i + word.len(),
            ) == word;
        let w = message.subrange(i, i + word.len());
        assert(message =~= message.take(i) + w + message.skip(i + word.len()));
        assert forall|k: int| 0 <= k < w.len() implies ascii_lower(#[trigger] w[k]) == ascii_lower(
            word[k],
        ) by {
            assert(lower.subrange(i, i + word.len())[k] == word[k]);
            assert(!('A' <= word[k] <= 'Z'));
        }
        assert(same_ignoring_ascii_case(w, word));
    }
    if mentions(message, word) {
        let (a, w, b) = choose|a: Seq<char>, w: Seq<char>, b: Seq<char>|
            #![trigger a + w + b]
            message == a + w + b && same_ignoring_ascii_case(w, word);
        let i = a.len() as int;
        assert forall|k: int| 0 <= k < word.len() implies #[trigger] lower[i + k] == word[k] by {
            assert(message[i + k] == w[k]);
            assert(ascii_lower(w[k]) == ascii_lower(word[k]));
            assert(!('A' <= word[k] <= 'Z'));
        }
        assert(lower.subrange(i, i + word.len()) =~= word);
    }
}

proof fn lemma_longer_words(lower: Seq<char>)
    ensures
        has_text(lower, "unauthorized"@) ==> has_text(lower, "auth"@),
        has_text(lower, "not authenticated"@) ==> has_text(lower, "auth"@),
{
    reveal_strlit("auth");
    reveal_strlit("unauthorized");
    reveal_strlit("not authenticated");
    if has_text(lower, "unauthorized"@) {
        let i = choose|i: int|
            0 <= i && i + "unauthorized"@.len() <= lower.len() && #[trigger] lower.subrange(
                i,
                i + "unauthorized"@.len(),
            ) == "unauthorized"@;
        let held = lower.subrange(i, i + "unauthorized"@.len());
        assert(lower.subrange(i + 2, i + 2 + "auth"@.len()) =~= held.subrange(2, 6));
        assert(held.subrange(2, 6) =~= "auth"@);
    }
    if has_text(lower, "not authenticated"@) {
        let i = choose|i: int|
            0 <= i && i + "not authenticated"@.len() <= lower.len() && #[trigger] lower.subrange(
                i,
                i + "not authenticated"@.len(),
            ) == "not authenticated"@;
        let held = lower.subrange(i, i + "not authenticated"@.len());
        assert(lower.subrange(i + 4, i + 4 + "auth"@.len()) =~= held.subrange(4, 8));
        assert(held.subrange(4, 8) =~= "auth"@);
    }
}

/// An error in ASCII that mentions `auth` or `login`, in any case, is one of
/// authentication, and shows the whole message; otherwise one that mentions a
/// rate or usage limit is a limit of a minute; every other one is passed on with
/// its message and the low 16 bits of a positive code.
pub proof fn law_errors_are_told_apart_by_their_words(message: Seq<char>, code: Option<i64>)
    requires
        is_ascii_chars(message),
    ensures
        mentions(message, "auth"@) || mentions(message, "login"@) ==> mapped_error(message, code)
            == LlmErrorView::AuthenticationFailed(
            "Codex CLI is not authenticated. Run `codex login`. Detail: "@ + message,
        ),
        !mentions(message, "auth"@) && !mentions(message, "login"@) ==> {
            &&& mentions(message, "rate limit"@) || mentions(message, "usage limit"@)
                ==> mapped_error(message, code) == (LlmErrorView::RateLimited {
                retry_after_ms: 60_000,
            })
            &&& !mentions(message, "rate limit"@) && !mentions(message, "usage limit"@) ==> {
                let e = mapped_error(message, code);
                &&& e is Api
                &&& e->message == message
                &&& e->status as int == if code is Some && code->Some_0 > 0 {
                    code->Some_0 as int % 65536
                } else {
                    0
                }
            }
        },
{
    reveal_strlit("auth");
    reveal_strlit("login");
    reveal_strlit("rate limit");
    reveal_strlit("usage limit");
    lemma_longer_words(lower_text(message));
    lemma_mentions(message, "auth"@);
    lemma_mentions(message, "login"@);
    lemma_mentions(message, "rate limit"@);
    lemma_mentions(message, "usage limit"@);
}

/// An error in other characters is told apart by the same words in its lower-case
/// form, with the same outcomes.
pub proof fn law_other_errors_are_told_apart_in_lower_case(message: Seq<char>, code: Option<i64>)
    requires
        !is_ascii_chars(message),
    ensures
        ({
            let lower = lowercase_text(message);
            let signed_out = has_text(lower, "auth"@) || has_text(lower, "login"@);
            let limited = has_text(lower, "rate limit"@) || has_text(lower, "usage limit"@);
            &&& signed_out ==> mapped_error(message, code) == LlmErrorView::AuthenticationFailed(
                "Codex CLI is not authenticated. Run `codex login`. Detail: "@ + message,
            )
            &&& !signed_out && limited ==> mapped_error(message, code)
                == (LlmErrorView::RateLimited { retry_after_ms: 60_000 })
            &&& !signed_out && !limited ==> {
                let e = mapped_error(message, code);
                &&& e is Api
                &&& e->message == message
                &&& e->status as int == if code is Some && code->Some_0 > 0 {
                    code->Some_0 as int % 65536
                } else {
                    0
                }
            }
        }),
{
    lemma_longer_words(lower_text(message));
}

/// A refused request is told apart by its message and code; without a message it
/// is said to have failed.
pub proof fn law_refused_request_shows_its_message(error: JsonView, message: Seq<char>)
    ensures
        member(error, "message"@) == Some(JsonView::Text(message)) ==> response_error(error)
            == mapped_error(message, signed_in(member(error, "code"@))),
        !(member(error, "message"@) is Some && member(error, "message"@)->Some_0 is Text)
            ==> response_error(error) == mapped_error(
            "Codex app-server request failed"@,
            signed_in(member(error, "code"@)),
        ),
{
}

/// A failed turn is told apart by what the server says of it, and otherwise by
/// its message; where no error is enclosed, the parameters themselves are it.
pub proof fn law_failed_turn_shows_its_message(params: JsonView, error: JsonView, message: Seq<char>)
    requires
        member(params, "error"@) == Some(error) || (member(params, "error"@) is None && error
            == params),
        member(error, "message"@) == Some(JsonView::Text(message)) || (text_in(
            member(error, "message"@),
        ) is None && message == "Codex app-server turn failed"@),
    ensures
        member(error, "codexErrorInfo"@) == Some(JsonView::Text("unauthorized"@)) ==> failed_turn(
            params,
        ) == LlmErrorView::AuthenticationFailed(
            "Codex CLI is not authenticated. Run `codex login`. Detail: "@ + message,
        ),
        member(error, "codexErrorInfo"@) == Some(JsonView::Text("usageLimitExceeded"@))
            ==> failed_turn(params) == (LlmErrorView::RateLimited { retry_after_ms: 60_000 }),
        member(error, "codexErrorInfo"@) != Some(JsonView::Text("unauthorized"@)) && member(
            error,
            "codexErrorInfo"@,
        ) != Some(JsonView::Text("usageLimitExceeded"@)) ==> failed_turn(params) == mapped_error(
            message,
            None,
        ),
{
    reveal_strlit("unauthorized");
    reveal_strlit("usageLimitExceeded");
    assert("unauthorized"@.len() != "usageLimitExceeded"@.len());
}

/// The tokens of a turn are those of its last step, or else of the whole thread;
/// what is not given as an unsigned number counts as zero.
pub proof fn law_usage_is_that_of_the_last_step(params: JsonView, counts: JsonView, n: u64)
    requires
        nested(params, "tokenUsage"@, "last"@) == Some(counts) || (nested(
            params,
            "tokenUsage"@,
            "last"@,
        ) is None && nested(params, "tokenUsage"@, "total"@) == Some(counts)),
    ensures
        member(counts, "inputTokens"@) == Some(JsonView::Number(NumberView::Unsigned(n)))
            ==> usage_of(params).input_tokens == n,
        member(counts, "outputTokens"@) == Some(JsonView::Number(NumberView::Unsigned(n)))
            ==> usage_of(params).output_tokens == n,
        unsigned_in(member(counts, "inputTokens"@)) is None ==> usage_of(params).input_tokens == 0,
        unsigned_in(member(counts, "outputTokens"@)) is None ==> usage_of(params).output_tokens
            == 0,
{
}

/// Without counts nothing was used.
pub proof fn law_no_counts_are_no_usage(params: JsonView)
    requires
        nested(params, "tokenUsage"@, "last"@) is None,
        nested(params, "tokenUsage"@, "total"@) is None,
    ensures
        usage_of(params) == (TokenUsage { input_tokens: 0, output_tokens: 0 }),
{
}

/// The text of a turn's items is that of its agent messages, one behind the
/// other; other items add nothing.
pub proof fn law_agent_messages_are_put_together(
    a: Seq<JsonView>,
    b: Seq<JsonView>,
    item: JsonView,
    text: Seq<char>,
)
    ensures
        agent_text(Seq::empty()) == Seq::<char>::empty(),
        agent_text(a + b) == agent_text(a) + agent_text(b),
        member(item, "type"@) == Some(JsonView::Text("agentMessage"@)) && member(item, "text"@)
            == Some(JsonView::Text(text)) ==> agent_text(seq![item]) == text,
        member(item, "type"@) != Some(JsonView::Text("agentMessage"@)) ==> agent_text(seq![item])
            == Seq::<char>::empty(),
        text_in(member(item, "text"@)) is None ==> agent_text(seq![item]) == Seq::<char>::empty(),
    decreases b.len(),
{
    let one = seq![item];
    assert(one.drop_last() =~= Seq::<JsonView>::empty());
    assert(one.last() == item);
    reveal_with_fuel(agent_text, 2);
    assert(Seq::<char>::empty() + text =~= text);
    if b.len() == 0 {
        assert(a + b =~= a);
        assert(agent_text(a) + agent_text(b) =~= agent_text(a));
    } else {
        law_agent_messages_are_put_together(a, b.drop_last(), item, text);
        assert((a + b).drop_last() =~= a + b.drop_last());
        assert((a + b).last() == b.last());
        assert(agent_text(a + b) =~= agent_text(a) + agent_text(b));
    }
}

/// The text of a turn is that of the items it encloses.
pub proof fn law_turn_text_is_that_of_its_items(params: JsonView, items: Seq<JsonView>)
    ensures
        nested(params, "turn"@, "items"@) == Some(JsonView::Array(items)) ==> turn_text(params)
            == agent_text(items),
        items_in(nested(params, "turn"@, "items"@)) is None ==> turn_text(params) == Seq::<
            char,
        >::empty(),
{
}

/// A limit is reached exactly where the server names its kind.
pub proof fn law_limit_is_reached_where_named(params: JsonView)
    ensures
        limit_reached(params) <==> nested(
            params,
            "rateLimits"@,
            "rateLimitReachedType"@,
        ) is Some && nested(params, "rateLimits"@, "rateLimitReachedType"@)->Some_0 is Text,
{
}

/// A line is read without the white space around it: a blank one is skipped, one
/// that is JSON gives its value, and every other one is shown in the error.
pub proof fn law_line_is_read_without_outer_white_space(
    line: String,
    before: Seq<char>,
    core: Seq<char>,
    behind: Seq<char>,
)
    requires
        line@ == before + core + behind,
        blank(before),
        firm(core),
        blank(behind),
    ensures
        core.len() == 0 ==> read_result(ReadOutcome::Line(line)) == Ok::<_, LlmErrorView>(
            None::<JsonView>,
        ),
        core.len() > 0 ==> read_result(ReadOutcome::Line(line)) == match json_parsed(core) {
            Ok(frame) => Ok::<_, LlmErrorView>(Some(frame)),
            Err(e) => Err(
                LlmErrorView::Parse(
                    "Failed to parse Codex app-server JSON frame: "@ + e + ": "@ + core,
                ),
            ),
        },
{
    law_trim_takes_outer_white_space(before, core, behind);
}

/// What is said where the app-server cannot be read, written or started.
pub proof fn law_failures_say_what_failed(e: String)
    ensures
        read_result(ReadOutcome::Closed) == Err::<Option<JsonView>, _>(
            LlmErrorView::Http("Codex app-server closed stdout unexpectedly"@),
        ),
        read_result(ReadOutcome::Failed(e)) == Err::<Option<JsonView>, _>(
            LlmErrorView::Http("Failed to read from Codex app-server: "@ + e@),
        ),
        write_failure(WriteFailure::Encode(e)) == LlmErrorView::Parse(e@),
        write_failure(WriteFailure::Write(e)) == LlmErrorView::Http(
            "Failed to write to Codex app-server: "@ + e@,
        ),
        write_failure(WriteFailure::Flush(e)) == LlmErrorView::Http(
            "Failed to flush Codex app-server stdin: "@ + e@,
        ),
        spawn_failure(SpawnFailure::Start(e)) == LlmErrorView::Http(
            "Codex CLI app-server not found or failed to start ("@ + e@
                + "). Install Codex CLI, verify `codex --version`, then run `codex login`."@,
        ),
        spawn_failure(SpawnFailure::NoStdin) == LlmErrorView::Http(
            "No stdin for Codex app-server"@,
        ),
        spawn_failure(SpawnFailure::NoStdout) == LlmErrorView::Http(
            "No stdout from Codex app-server"@,
        ),
{
}

proof fn lemma_any_case_ending(name: Seq<char>, stem: Seq<char>, end: Seq<char>, word: Seq<char>)
    requires
        is_ascii_chars(name),
        name == stem + end,
        same_ignoring_ascii_case(end, word),
        forall|i: int| 0 <= i < word.len() ==> !('a' <= #[trigger] word[i] <= 'z'),
    ensures
        word.is_suffix_of(upper_text(name)),
{
    let upper = upper_text(name);
    assert(upper == name.map_values(|c: char| ascii_upper(c)));
    assert forall|k: int| 0 <= k < word.len() implies #[trigger] upper[stem.len() + k] == word[k] by {
        assert(name[stem.len() + k] == end[k]);
        assert(ascii_lower(end[k]) == ascii_lower(word[k]));
        assert(!('a' <= word[k] <= 'z'));
    }
    assert(upper.subrange(upper.len() - word.len(), upper.len() as int) =~= word);
}

proof fn lemma_ending_of_upper(name: Seq<char>, word: Seq<char>)
    requires
        is_ascii_chars(name),
        word.is_suffix_of(upper_text(name)),
    ensures
        name.len() >= word.len(),
        same_ignoring_ascii_case(name.skip(name.len() - word.len()), word),
{
    let upper = upper_text(name);
    assert(upper == name.map_values(|c: char| ascii_upper(c)));
    let end = name.skip(name.len() - word.len());
    assert forall|k: int| 0 <= k < end.len() implies ascii_lower(#[trigger] end[k]) == ascii_lower(
        word[k],
    ) by {
        assert(upper.subrange(upper.len() - word.len(), upper.len() as int)[k] == word[k]);
        assert(end[k] == name[name.len() - word.len() + k]);
    }
}

/// The name ends with the word, in whatever case its letters are.
pub open spec fn ends_with(name: Seq<char>, word: Seq<char>) -> bool {
    name.len() >= word.len() && same_ignoring_ascii_case(name.skip(name.len() - word.len()), word)
}

/// A variable in ASCII is a secret by its name exactly where the name ends with
/// `_SECRET`, `_TOKEN` or `_PASSWORD`, in any case, and does not begin with
/// `CODEX_`; in other names the endings are looked for in the upper-case form.
pub proof fn law_secrets_are_known_by_their_endings(name: Seq<char>)
    ensures
        is_ascii_chars(name) ==> (secret_by_ending(name)
            <==> !"CODEX_"@.is_prefix_of(name) && (ends_with(name, "_SECRET"@) || ends_with(
            name,
            "_TOKEN"@,
        ) || ends_with(name, "_PASSWORD"@))),
        !is_ascii_chars(name) ==> (secret_by_ending(name)
            <==> !"CODEX_"@.is_prefix_of(name) && ("_SECRET"@.is_suffix_of(uppercase_text(name))
            || "_TOKEN"@.is_suffix_of(uppercase_text(name)) || "_PASSWORD"@.is_suffix_of(
            uppercase_text(name),
        ))),
{
    if is_ascii_chars(name) {
        reveal_strlit("_SECRET");
        reveal_strlit("_TOKEN");
        reveal_strlit("_PASSWORD");
        lemma_ending_both_ways(name, "_SECRET"@);
        lemma_ending_both_ways(name, "_TOKEN"@);
        lemma_ending_both_ways(name, "_PASSWORD"@);
    }
}

proof fn lemma_ending_both_ways(name: Seq<char>, word: Seq<char>)
    requires
        is_ascii_chars(name),
        forall|i: int| 0 <= i < word.len() ==> !('a' <= #[trigger] word[i] <= 'z'),
    ensures
        ends_with(name, word) <==> word.is_suffix_of(upper_text(name)),
{
    if ends_with(name, word) {
        let at = name.len() - word.len();
        assert(name =~= name.take(at) + name.skip(at));
        lemma_any_case_ending(name, name.take(at), name.skip(at), word);
    }
    if word.is_suffix_of(upper_text(name)) {
        lemma_ending_of_upper(name, word);
    }
}

/// The names that are always withheld, and then those of the given ones that are
/// secrets, in their order.
pub proof fn law_withheld_names(a: Seq<Seq<char>>, b: Seq<Seq<char>>, name: Seq<char>)
    ensures
        withheld(Seq::empty()) == seq![
            "OPENAI_API_KEY"@,
            "ANTHROPIC_API_KEY"@,
            "GEMINI_API_KEY"@,
            "GOOGLE_API_KEY"@,
            "GROQ_API_KEY"@,
            "DEEPSEEK_API_KEY"@,
            "MISTRAL_API_KEY"@,
            "TOGETHER_API_KEY"@,
            "FIREWORKS_API_KEY"@,
            "OPENROUTER_API_KEY"@,
            "PERPLEXITY_API_KEY"@,
            "COHERE_API_KEY"@,
            "AI21_API_KEY"@,
            "CEREBRAS_API_KEY"@,
            "SAMBANOVA_API_KEY"@,
            "HUGGINGFACE_API_KEY"@,
            "XAI_API_KEY"@,
            "REPLICATE_API_TOKEN"@,
            "BRAVE_API_KEY"@,
            "TAVILY_API_KEY"@,
            "ELEVENLABS_API_KEY"@,
        ],
        withheld(a.push(name)) == if secret_by_ending(name) {
            withheld(a).push(name)
        } else {
            withheld(a)
        },
        withheld(a + b) == withheld(a) + secrets_among(b),
{
    assert(a.push(name).drop_last() =~= a);
    assert(a.push(name).last() == name);
    assert(sensitive_names() + Seq::<Seq<char>>::empty() =~= sensitive_names());
    assert(withheld(a.push(name)) =~= if secret_by_ending(name) {
        withheld(a).push(name)
    } else {
        withheld(a)
    });
    lemma_secrets_concatenate(a, b);
    assert(withheld(a + b) =~= withheld(a) + secrets_among(b));
}

proof fn lemma_secrets_concatenate(a: Seq<Seq<char>>, b: Seq<Seq<char>>)
    ensures
        secrets_among(a + b) == secrets_among(a) + secrets_among(b),
    decreases b.len(),
{
    if b.len() == 0 {
        assert(a + b =~= a);
        assert(secrets_among(a) + secrets_among(b) =~= secrets_among(a));
    } else {
        lemma_secrets_concatenate(a, b.drop_last());
        assert((a + b).drop_last() =~= a + b.drop_last());
        assert((a + b).last() == b.last());
        assert(secrets_among(a + b) =~= secrets_among(a) + secrets_among(b));
    }
}

/// How the app-server is started, and how long a message may take.
pub proof fn law_server_listens_on_its_standard_streams()
    ensures
        server_args() == seq!["app-server"@, "--listen"@, "stdio://"@],
        DEFAULT_MESSAGE_TIMEOUT_SECS == 300,
{
}

/// A setting counts exactly where it holds some text.
pub proof fn law_settings_hold_text(setting: Option<Seq<char>>, text: Seq<char>)
    ensures
        filled(setting) == Some(text) <==> setting == Some(text) && text.len() > 0,
        filled(setting) is None <==> setting is None || setting->Some_0.len() == 0,
{
}

/// A command that succeeded shows its version without the white space around it;
/// one that failed, or did not run, shows none.
pub proof fn law_version_is_what_the_command_prints(
    output: CommandOutput,
    before: Seq<char>,
    version: Seq<char>,
    behind: Seq<char>,
)
    requires
        blank(before),
        firm(version),
        blank(behind),
    ensures
        output.success && output.stdout@ == encode_utf8(before + version + behind) ==> detected(
            Some(output),
        ) == Some(version),
        output.success ==> detected(Some(output)) is Some,
        !output.success ==> detected(Some(output)) is None,
        detected(None) is None,
{
    law_trim_takes_outer_white_space(before, version, behind);
    encode_utf8_valid_utf8(before + version + behind);
    encode_utf8_decode_utf8(before + version + behind);
}

} // verus!
