//! The frames of the app-server protocol: what is asked, what is answered, and
//! what errors mean.

use vstd::prelude::*;
use vstd::utf8::is_ascii_chars;

use crate::decimal::decimal_text;
use crate::decimal::u64_text;
use crate::json::as_i64;
use crate::json::as_str;
use crate::json::as_u64;
use crate::json::is_text;
use crate::json::items_in;
use crate::json::items_view;
use crate::json::lemma_items_view;
use crate::json::member;
use crate::json::nested;
use crate::json::option_json;
use crate::json::signed_in;
use crate::json::str_option;
use crate::json::text_in;
use crate::json::text_json;
use crate::json::text_or_null;
use crate::json::unsigned_in;
use crate::json::Json;
use crate::json::JsonObject;
use crate::json::JsonView;
use crate::json::NumberView;
use crate::json_text::encode_json;
use crate::json_text::parse_json;
use crate::json_text::parse_result;
use crate::llm::LlmError;
use crate::llm::LlmErrorView;
use crate::llm::TokenUsage;
use crate::text::ascii_lower;
use crate::text::concat2;
use crate::text::concat3;
use crate::text::contains_text;
use crate::text::has_text;
use crate::text::no_text;
use crate::text::str_equal;
use crate::text::trim;
use crate::text::trim_text;
use crate::trusted::json_parsed;
use crate::trusted::json_text;
use crate::trusted::lowercase_text;
use crate::trusted::number_from_i64;
use crate::trusted::number_from_u64;
use crate::trusted::to_lowercase;
use super::prompt::flag_of;
use super::CodexAppServerDriver;

verus! {

/// A text value.
pub open spec fn text_value(s: Seq<char>) -> JsonView {
    JsonView::Text(s)
}

/// The frame of a request.
pub open spec fn request_frame(id: u64, method: Seq<char>, params: JsonView) -> JsonView {
    JsonView::Object(
        map![
            "id"@ => JsonView::Number(NumberView::Unsigned(id)),
            "method"@ => JsonView::Text(method),
            "params"@ => params,
        ],
    )
}

/// What the driver says of itself.
pub open spec fn initialize_request(version: Seq<char>) -> JsonView {
    JsonView::Object(
        map![
            "clientInfo"@ => JsonView::Object(map![
                "name"@ => text_value("openfang"@),
                "title"@ => text_value("OpenFang"@),
                "version"@ => text_value(version),
            ]),
            "capabilities"@ => JsonView::Object(map![
                "experimentalApi"@ => JsonView::Bool(true),
                "requestAttestation"@ => JsonView::Bool(false),
                "optOutNotificationMethods"@ => JsonView::Array(seq![]),
            ]),
        ],
    )
}

/// What a new thread is started with: nothing may be approved, and nothing
/// written.
pub open spec fn thread_request(
    model: Seq<char>,
    cwd: Option<Seq<char>>,
    system: Option<Seq<char>>,
) -> JsonView {
    JsonView::Object(
        map![
            "model"@ => text_or_null(flag_of(model)),
            "modelProvider"@ => JsonView::Null,
            "cwd"@ => text_or_null(cwd),
            "approvalPolicy"@ => text_value("never"@),
            "sandbox"@ => text_value("read-only"@),
            "serviceName"@ => text_value("openfang"@),
            "baseInstructions"@ => text_or_null(system),
            "ephemeral"@ => JsonView::Bool(true),
            "experimentalRawEvents"@ => JsonView::Bool(false),
            "persistExtendedHistory"@ => JsonView::Bool(false),
        ],
    )
}

/// What a turn is started with.
pub open spec fn turn_request(
    thread_id: Seq<char>,
    prompt: Seq<char>,
    model: Seq<char>,
    cwd: Option<Seq<char>>,
) -> JsonView {
    JsonView::Object(
        map![
            "threadId"@ => text_value(thread_id),
            "input"@ => JsonView::Array(seq![
                JsonView::Object(map![
                    "type"@ => text_value("text"@),
                    "text"@ => text_value(prompt),
                    "text_elements"@ => JsonView::Array(seq![]),
                ]),
            ]),
            "model"@ => text_or_null(flag_of(model)),
            "cwd"@ => text_or_null(cwd),
            "approvalPolicy"@ => text_value("never"@),
        ],
    )
}

/// The answer with a result.
pub open spec fn result_answer(id: JsonView, result: JsonView) -> JsonView {
    JsonView::Object(map!["id"@ => id, "result"@ => result])
}

/// The result that a decision is.
pub open spec fn decision(word: Seq<char>) -> JsonView {
    JsonView::Object(map!["decision"@ => text_value(word)])
}

/// The error that an unknown request is answered with.
pub open spec fn unsupported(method: Seq<char>) -> JsonView {
    JsonView::Object(
        map![
            "code"@ => JsonView::Number(NumberView::Negative((-32601) as i64)),
            "message"@ => text_value(
                "OpenFang Codex app-server driver does not support server request `"@ + method
                    + "`"@,
            ),
        ],
    )
}

/// The method of a request of the server.
pub open spec fn server_method(msg: JsonView) -> Seq<char> {
    match text_in(member(msg, "method"@)) {
        Some(method) => method,
        None => "unknown"@,
    }
}

/// How a request of the server is answered: nothing is approved, no input given
/// and no tool called. What has no id is no request.
pub open spec fn rejection(msg: JsonView) -> Option<JsonView> {
    match member(msg, "id"@) {
        None => None,
        Some(id) => {
            let method = server_method(msg);
            Some(
                if method == "item/commandExecution/requestApproval"@ || method
                    == "item/fileChange/requestApproval"@ {
                    result_answer(id, decision("decline"@))
                } else if method == "applyPatchApproval"@ || method == "execCommandApproval"@ {
                    result_answer(id, decision("denied"@))
                } else if method == "item/tool/requestUserInput"@ {
                    result_answer(
                        id,
                        JsonView::Object(map!["answers"@ => JsonView::Object(Map::empty())]),
                    )
                } else if method == "item/tool/call"@ {
                    result_answer(
                        id,
                        JsonView::Object(
                            map![
                                "contentItems"@ => JsonView::Array(seq![]),
                                "success"@ => JsonView::Bool(false),
                            ],
                        ),
                    )
                } else {
                    JsonView::Object(map!["id"@ => id, "error"@ => unsupported(method)])
                },
            )
        },
    }
}

/// An unsigned member, or 0.
pub open spec fn count_in(j: JsonView, key: Seq<char>) -> u64 {
    match unsigned_in(member(j, key)) {
        Some(v) => v,
        None => 0,
    }
}

/// The usage that a notification reports: the last turn's, else the total.
pub open spec fn usage_of(params: JsonView) -> TokenUsage {
    let source = match nested(params, "tokenUsage"@, "last"@) {
        Some(last) => last,
        None => match nested(params, "tokenUsage"@, "total"@) {
            Some(total) => total,
            None => JsonView::Null,
        },
    };
    TokenUsage {
        input_tokens: count_in(source, "inputTokens"@),
        output_tokens: count_in(source, "outputTokens"@),
    }
}

/// The text of the agent's messages among the items of a turn.
pub open spec fn agent_text(items: Seq<JsonView>) -> Seq<char>
    decreases items.len(),
{
    if items.len() == 0 {
        seq![]
    } else {
        let before = agent_text(items.drop_last());
        let item = items.last();
        if text_in(member(item, "type"@)) == Some("agentMessage"@) {
            match text_in(member(item, "text"@)) {
                Some(text) => before + text,
                None => before,
            }
        } else {
            before
        }
    }
}

/// The text of a completed turn.
pub open spec fn turn_text(params: JsonView) -> Seq<char> {
    match items_in(nested(params, "turn"@, "items"@)) {
        Some(items) => agent_text(items),
        None => seq![],
    }
}

/// The lower-case form of a text; ASCII text maps letter by letter.
pub open spec fn lower_text(s: Seq<char>) -> Seq<char> {
    if is_ascii_chars(s) {
        s.map_values(|c: char| ascii_lower(c))
    } else {
        lowercase_text(s)
    }
}

/// The failure of a CLI that is not logged in.
pub open spec fn unauthenticated(message: Seq<char>) -> LlmErrorView {
    LlmErrorView::AuthenticationFailed(
        "Codex CLI is not authenticated. Run `codex login`. Detail: "@ + message,
    )
}

/// The failure of an exhausted account.
pub open spec fn rate_limited() -> LlmErrorView {
    LlmErrorView::RateLimited { retry_after_ms: 60_000 }
}

/// The status that an error code stands for: its low 16 bits, 0 for a negative
/// one.
pub open spec fn status_of(code: Option<i64>) -> u16 {
    match code {
        Some(c) => if c > 0 {
            (c % 0x1_0000) as u16
        } else {
            0
        },
        None => 0,
    }
}

/// What an error message with a code means.
pub open spec fn mapped_error(message: Seq<char>, code: Option<i64>) -> LlmErrorView {
    let lower = lower_text(message);
    if has_text(lower, "unauthorized"@) || has_text(lower, "not authenticated"@) || has_text(
        lower,
        "login"@,
    ) || has_text(lower, "auth"@) {
        unauthenticated(message)
    } else if has_text(lower, "rate limit"@) || has_text(lower, "usage limit"@) {
        rate_limited()
    } else {
        LlmErrorView::Api { status: status_of(code), message }
    }
}

/// A text member, or another text.
pub open spec fn text_or(j: JsonView, key: Seq<char>, other: Seq<char>) -> Seq<char> {
    match text_in(member(j, key)) {
        Some(text) => text,
        None => other,
    }
}

/// What the error of a response means.
pub open spec fn response_error(error: JsonView) -> LlmErrorView {
    mapped_error(
        text_or(error, "message"@, "Codex app-server request failed"@),
        signed_in(member(error, "code"@)),
    )
}

/// What an error notification of a turn means.
pub open spec fn failed_turn(params: JsonView) -> LlmErrorView {
    let error = match member(params, "error"@) {
        Some(error) => error,
        None => params,
    };
    let message = text_or(error, "message"@, "Codex app-server turn failed"@);
    if text_in(member(error, "codexErrorInfo"@)) == Some("unauthorized"@) {
        unauthenticated(message)
    } else if text_in(member(error, "codexErrorInfo"@)) == Some("usageLimitExceeded"@) {
        rate_limited()
    } else {
        mapped_error(message, None)
    }
}

/// A notification says that the account's limit is reached.
pub open spec fn limit_reached(params: JsonView) -> bool {
    text_in(nested(params, "rateLimits"@, "rateLimitReachedType"@)) is Some
}

/// The answer with a result.
fn answer_with(id: Json, result: Json) -> (r: Json)
    ensures
        r@ == result_answer(id@, result@),
{
    let mut o: JsonObject = JsonObject::new();
    o.put("id", id);
    o.put("result", result);
    Json::Object(o)
}

/// The result that a decision is.
fn decision_json(word: &str) -> (r: Json)
    ensures
        r@ == decision(word@),
{
    let mut o: JsonObject = JsonObject::new();
    o.put("decision", text_json(word));
    Json::Object(o)
}

/// The array without items.
fn empty_array() -> (r: Json)
    ensures
        r@ == JsonView::Array(seq![]),
{
    Json::Array(Vec::new())
}

/// The array with one item.
fn array_of(item: Json) -> (r: Json)
    ensures
        r@ == JsonView::Array(seq![item@]),
{
    let mut v: Vec<Json> = Vec::new();
    v.push(item);
    proof {
        lemma_items_view(v@);
        assert(items_view(v@) =~= seq![item@]);
    }
    Json::Array(v)
}

impl CodexAppServerDriver {
    /// The frame of a request.
    pub fn request_json(id: u64, method: &str, params: Json) -> (r: Json)
        ensures
            r@ == request_frame(id, method@, params@),
    {
        let mut o: JsonObject = JsonObject::new();
        o.put("id", Json::Number(number_from_u64(id)));
        o.put("method", text_json(method));
        o.put("params", params);
        Json::Object(o)
    }

    /// What the driver says of itself.
    pub fn initialize_params(version: &str) -> (r: Json)
        ensures
            r@ == initialize_request(version@),
    {
        let mut info: JsonObject = JsonObject::new();
        info.put("name", text_json("openfang"));
        info.put("title", text_json("OpenFang"));
        info.put("version", text_json(version));
        let mut capabilities: JsonObject = JsonObject::new();
        capabilities.put("experimentalApi", Json::Bool(true));
        capabilities.put("requestAttestation", Json::Bool(false));
        capabilities.put("optOutNotificationMethods", empty_array());
        let mut o: JsonObject = JsonObject::new();
        o.put("clientInfo", Json::Object(info));
        o.put("capabilities", Json::Object(capabilities));
        Json::Object(o)
    }

    /// What a new thread is started with.
    pub fn thread_params(model: &str, cwd: Option<&str>, system: Option<&str>) -> (r: Json)
        ensures
            r@ == thread_request(model@, str_option(cwd), str_option(system)),
    {
        let mut o: JsonObject = JsonObject::new();
        o.put("model", model_json(model));
        o.put("modelProvider", Json::Null);
        o.put("cwd", option_json(cwd));
        o.put("approvalPolicy", text_json("never"));
        o.put("sandbox", text_json("read-only"));
        o.put("serviceName", text_json("openfang"));
        o.put("baseInstructions", option_json(system));
        o.put("ephemeral", Json::Bool(true));
        o.put("experimentalRawEvents", Json::Bool(false));
        o.put("persistExtendedHistory", Json::Bool(false));
        Json::Object(o)
    }

    /// What a turn is started with.
    pub fn turn_params(thread_id: &str, prompt: &str, model: &str, cwd: Option<&str>) -> (r: Json)
        ensures
            r@ == turn_request(thread_id@, prompt@, model@, str_option(cwd)),
    {
        let mut input: JsonObject = JsonObject::new();
        input.put("type", text_json("text"));
        input.put("text", text_json(prompt));
        input.put("text_elements", empty_array());
        let mut o: JsonObject = JsonObject::new();
        o.put("threadId", text_json(thread_id));
        o.put("input", array_of(Json::Object(input)));
        o.put("model", model_json(model));
        o.put("cwd", option_json(cwd));
        o.put("approvalPolicy", text_json("never"));
        Json::Object(o)
    }

    /// How a request of the server is answered; nothing is sent where there is
    /// no id to answer to.
    pub fn reject_server_request(msg: &Json) -> (r: Option<Json>)
        ensures
            json_value(r) == rejection(msg@),
    {
        let id: Json = match msg.get("id") {
            Some(id) => id.copied(),
            None => return None,
        };
        let method: &str = match as_str(msg.get("method")) {
            Some(method) => method,
            None => "unknown",
        };
        let response: Json = if str_equal(method, "item/commandExecution/requestApproval")
            || str_equal(method, "item/fileChange/requestApproval") {
            answer_with(id, decision_json("decline"))
        } else if str_equal(method, "applyPatchApproval") || str_equal(
            method,
            "execCommandApproval",
        ) {
            answer_with(id, decision_json("denied"))
        } else if str_equal(method, "item/tool/requestUserInput") {
            let mut o: JsonObject = JsonObject::new();
            o.put("answers", Json::Object(JsonObject::new()));
            answer_with(id, Json::Object(o))
        } else if str_equal(method, "item/tool/call") {
            let mut o: JsonObject = JsonObject::new();
            o.put("contentItems", empty_array());
            o.put("success", Json::Bool(false));
            answer_with(id, Json::Object(o))
        } else {
            let message: String = concat3(
                "OpenFang Codex app-server driver does not support server request `",
                method,
                "`",
            );
            let mut error: JsonObject = JsonObject::new();
            error.put("code", Json::Number(number_from_i64(-32601)));
            error.put("message", text_json(message.as_str()));
            let mut o: JsonObject = JsonObject::new();
            o.put("id", id);
            o.put("error", Json::Object(error));
            Json::Object(o)
        };
        Some(response)
    }

    /// The usage that a notification reports: the last turn's, else the total.
    pub fn parse_usage(params: &Json) -> (r: TokenUsage)
        ensures
            r == usage_of(params@),
    {
        let none: Json = Json::Null;
        let source: &Json = match params.get_nested("tokenUsage", "last") {
            Some(last) => last,
            None => match params.get_nested("tokenUsage", "total") {
                Some(total) => total,
                None => &none,
            },
        };
        TokenUsage {
            input_tokens: match as_u64(source.get("inputTokens")) {
                Some(v) => v,
                None => 0,
            },
            output_tokens: match as_u64(source.get("outputTokens")) {
                Some(v) => v,
                None => 0,
            },
        }
    }

    /// The text of a completed turn: that of the agent's messages.
    pub fn extract_turn_text(params: &Json) -> (r: String)
        ensures
            r@ == turn_text(params@),
    {
        let mut out: String = String::new();
        let items: &Vec<Json> = match params.get_nested("turn", "items") {
            Some(Json::Array(items)) => items,
            _ => return out,
        };
        let ghost views = items_view(items@);
        let n: usize = items.len();
        let mut i: usize = 0;
        proof {
            lemma_items_view(items@);
            assert(views.take(0) =~= Seq::<JsonView>::empty());
        }
        while i < n
            invariant
                n == items@.len(),
                i <= n,
                views == items_view(items@),
                views.len() == n,
                forall|k: int| 0 <= k < n ==> #[trigger] views[k] == items@[k]@,
                out@ == agent_text(views.take(i as int)),
            decreases n - i,
        {
            assert(views.take(i + 1).drop_last() =~= views.take(i as int));
            assert(views.take(i + 1).last() == views[i as int]);
            let item: &Json = &items[i];
            if is_text(item.get("type"), "agentMessage") {
                if let Some(text) = as_str(item.get("text")) {
                    out.append(text);
                }
            }
            i = i + 1;
        }
        assert(views.take(n as int) =~= views);
        out
    }

    /// What the error of a response means.
    pub fn jsonrpc_error(error: &Json) -> (r: LlmError)
        ensures
            r@ == response_error(error@),
    {
        let message: &str = match as_str(error.get("message")) {
            Some(message) => message,
            None => "Codex app-server request failed",
        };
        Self::map_error(message, as_i64(error.get("code")))
    }

    /// What an error notification of a turn means.
    pub fn turn_error(params: &Json) -> (r: LlmError)
        ensures
            r@ == failed_turn(params@),
    {
        let error: &Json = match params.get("error") {
            Some(error) => error,
            None => params,
        };
        let message: &str = match as_str(error.get("message")) {
            Some(message) => message,
            None => "Codex app-server turn failed",
        };
        if is_text(error.get("codexErrorInfo"), "unauthorized") {
            return not_authenticated(message);
        }
        if is_text(error.get("codexErrorInfo"), "usageLimitExceeded") {
            return LlmError::RateLimited { retry_after_ms: 60_000 };
        }
        Self::map_error(message, None)
    }

    /// What an error message with a code means.
    pub fn map_error(message: &str, code: Option<i64>) -> (r: LlmError)
        ensures
            r@ == mapped_error(message@, code),
    {
        let lower: String = to_lowercase(message);
        let l: &str = lower.as_str();
        if contains_text(l, "unauthorized") || contains_text(l, "not authenticated")
            || contains_text(l, "login") || contains_text(l, "auth") {
            return not_authenticated(message);
        }
        if contains_text(l, "rate limit") || contains_text(l, "usage limit") {
            return LlmError::RateLimited { retry_after_ms: 60_000 };
        }
        let status: u16 = match code {
            Some(c) => if c > 0 {
                (c % 0x1_0000) as u16
            } else {
                0
            },
            None => 0,
        };
        LlmError::Api { status, message: message.to_owned() }
    }

    /// Whether a notification says that the account's limit is reached.
    pub fn rate_limit_reached(params: &Json) -> (r: bool)
        ensures
            r == limit_reached(params@),
    {
        as_str(params.get_nested("rateLimits", "rateLimitReachedType")).is_some()
    }
}

/// The value of an optional JSON value.
pub open spec fn json_value(j: Option<Json>) -> Option<JsonView> {
    match j {
        Some(v) => Some(v@),
        None => None,
    }
}

/// The model that the app-server is asked for, or null.
fn model_json(model: &str) -> (r: Json)
    ensures
        r@ == text_or_null(flag_of(model@)),
{
    match CodexAppServerDriver::model_flag(model) {
        Some(flag) => Json::Text(flag),
        None => Json::Null,
    }
}

/// The failure of a CLI that is not logged in.
fn not_authenticated(message: &str) -> (r: LlmError)
    ensures
        r@ == unauthenticated(message@),
{
    LlmError::AuthenticationFailed(
        concat2("Codex CLI is not authenticated. Run `codex login`. Detail: ", message),
    )
}

/// How writing a frame can fail.
#[derive(Debug, PartialEq, Eq)]
pub enum WriteFailure {
    Encode(String),
    Write(String),
    Flush(String),
}

/// What a failed write means.
pub open spec fn write_failure(f: WriteFailure) -> LlmErrorView {
    match f {
        WriteFailure::Encode(e) => LlmErrorView::Parse(e@),
        WriteFailure::Write(e) => LlmErrorView::Http(
            "Failed to write to Codex app-server: "@ + e@,
        ),
        WriteFailure::Flush(e) => LlmErrorView::Http(
            "Failed to flush Codex app-server stdin: "@ + e@,
        ),
    }
}

/// What a failed write means.
pub fn write_error(f: &WriteFailure) -> (r: LlmError)
    ensures
        r@ == write_failure(*f),
{
    match f {
        WriteFailure::Encode(e) => LlmError::Parse(e.as_str().to_owned()),
        WriteFailure::Write(e) => LlmError::Http(
            concat2("Failed to write to Codex app-server: ", e.as_str()),
        ),
        WriteFailure::Flush(e) => LlmError::Http(
            concat2("Failed to flush Codex app-server stdin: ", e.as_str()),
        ),
    }
}

/// The line that carries a frame: its compact JSON text.
pub fn encode_frame(frame: &Json) -> (r: Result<String, WriteFailure>)
    ensures
        r is Ok,
        r matches Ok(s) ==> s@ == json_text(frame@),
{
    match encode_json(frame) {
        Ok(s) => Ok(s),
        Err(e) => Err(WriteFailure::Encode(e)),
    }
}

/// What reading a line of the app-server gave.
#[derive(Debug, PartialEq, Eq)]
pub enum ReadOutcome {
    Line(String),
    Closed,
    Failed(String),
}

/// What a line that is not blank leads to, by what parsing it gave.
pub open spec fn parsed_frame(
    trimmed: Seq<char>,
    parsed: Result<JsonView, Seq<char>>,
) -> Result<JsonView, LlmErrorView> {
    match parsed {
        Ok(frame) => Ok(frame),
        Err(e) => Err(
            LlmErrorView::Parse(
                "Failed to parse Codex app-server JSON frame: "@ + e + ": "@ + trimmed,
            ),
        ),
    }
}

/// What a read leads to: a frame, nothing yet for a blank line, or a failure.
pub open spec fn read_result(outcome: ReadOutcome) -> Result<Option<JsonView>, LlmErrorView> {
    match outcome {
        ReadOutcome::Line(line) => if trim_text(line@).len() == 0 {
            Ok(None)
        } else {
            match parsed_frame(trim_text(line@), json_parsed(trim_text(line@))) {
                Ok(frame) => Ok(Some(frame)),
                Err(e) => Err(e),
            }
        },
        ReadOutcome::Closed => Err(
            LlmErrorView::Http("Codex app-server closed stdout unexpectedly"@),
        ),
        ReadOutcome::Failed(e) => Err(
            LlmErrorView::Http("Failed to read from Codex app-server: "@ + e@),
        ),
    }
}

/// The value of a frame, or of the failure to have one.
pub open spec fn frame_value(r: Result<Json, LlmError>) -> Result<JsonView, LlmErrorView> {
    match r {
        Ok(frame) => Ok(frame@),
        Err(e) => Err(e@),
    }
}

/// The value of what a read leads to.
pub open spec fn read_value(r: Result<Option<Json>, LlmError>) -> Result<
    Option<JsonView>,
    LlmErrorView,
> {
    match r {
        Ok(Some(frame)) => Ok(Some(frame@)),
        Ok(None) => Ok(None),
        Err(e) => Err(e@),
    }
}

/// What a line that is not blank leads to, by what parsing it gave.
pub fn accept_frame(trimmed: &str, parsed: Result<Json, String>) -> (r: Result<Json, LlmError>)
    ensures
        frame_value(r) == parsed_frame(trimmed@, parse_result(parsed)),
{
    match parsed {
        Ok(frame) => Ok(frame),
        Err(e) => {
            let mut s: String = concat3(
                "Failed to parse Codex app-server JSON frame: ",
                e.as_str(),
                ": ",
            );
            s.append(trimmed);
            Err(LlmError::Parse(s))
        },
    }
}

/// What a read leads to: the frame that the line is, nothing yet for a blank
/// line, or a failure.
pub fn read_frame(outcome: &ReadOutcome) -> (r: Result<Option<Json>, LlmError>)
    ensures
        read_value(r) == read_result(*outcome),
{
    match outcome {
        ReadOutcome::Line(line) => {
            let trimmed: &str = trim(line.as_str());
            if no_text(trimmed) {
                return Ok(None);
            }
            match accept_frame(trimmed, parse_json(trimmed)) {
                Ok(frame) => Ok(Some(frame)),
                Err(e) => Err(e),
            }
        },
        ReadOutcome::Closed => Err(
            LlmError::Http("Codex app-server closed stdout unexpectedly".to_owned()),
        ),
        ReadOutcome::Failed(e) => Err(
            LlmError::Http(concat2("Failed to read from Codex app-server: ", e.as_str())),
        ),
    }
}

/// How starting the app-server can fail.
#[derive(Debug, PartialEq, Eq)]
pub enum SpawnFailure {
    Start(String),
    NoStdin,
    NoStdout,
}

/// What a failed start means.
pub open spec fn spawn_failure(f: SpawnFailure) -> LlmErrorView {
    LlmErrorView::Http(
        match f {
            SpawnFailure::Start(e) => "Codex CLI app-server not found or failed to start ("@ + e@
                + "). Install Codex CLI, verify `codex --version`, then run `codex login`."@,
            SpawnFailure::NoStdin => "No stdin for Codex app-server"@,
            SpawnFailure::NoStdout => "No stdout from Codex app-server"@,
        },
    )
}

/// What a failed start means.
pub fn spawn_error(f: &SpawnFailure) -> (r: LlmError)
    ensures
        r@ == spawn_failure(*f),
{
    match f {
        SpawnFailure::Start(e) => LlmError::Http(
            concat3(
                "Codex CLI app-server not found or failed to start (",
                e.as_str(),
                "). Install Codex CLI, verify `codex --version`, then run `codex login`.",
            ),
        ),
        SpawnFailure::NoStdin => LlmError::Http("No stdin for Codex app-server".to_owned()),
        SpawnFailure::NoStdout => LlmError::Http("No stdout from Codex app-server".to_owned()),
    }
}

/// The failure of a turn that takes longer than the driver waits.
pub fn timeout_error(secs: u64) -> (r: LlmError)
    ensures
        r@ == LlmErrorView::Http(
            "Codex app-server turn timed out after "@ + decimal_text(secs as int) + "s"@,
        ),
{
    let text: String = u64_text(secs);
    LlmError::Http(concat3("Codex app-server turn timed out after ", text.as_str(), "s"))
}

} // verus!
