use openfang_core::codex_app_server::protocol::{
    encode_frame, ReadOutcome, SpawnFailure, WriteFailure,
};
use openfang_core::codex_app_server::threads::{AppServerSession, DriverState, ThreadState};
use openfang_core::codex_app_server::turn::{Action, Event, HostInfo, TurnRun};
use openfang_core::codex_app_server::CodexAppServerDriver;
use openfang_core::json::{Json, JsonMember, JsonObject};
use openfang_core::llm::{
    CompletionRequest, CompletionResponse, ContentBlock, LlmError, Message, MessageContent, Role,
    StopReason, StreamEvent, TokenUsage,
};

fn text(s: &str) -> Json {
    Json::Text(s.to_string())
}

fn number(v: u64) -> Json {
    Json::Number(serde_json::Number::from(v))
}

fn object(members: Vec<(&str, Json)>) -> Json {
    Json::Object(JsonObject {
        members: members
            .into_iter()
            .map(|(key, value)| JsonMember {
                key: key.to_string(),
                value,
            })
            .collect(),
    })
}

fn frame(json: Json) -> Event {
    Event::Read(ReadOutcome::Line(encode_frame(&json).unwrap()))
}

fn host() -> HostInfo {
    HostInfo {
        cwd: Some("/w".to_string()),
        version: "0.1.0".to_string(),
    }
}

fn user(content: &str, msg_id: &str) -> Message {
    Message {
        role: Role::User,
        content: MessageContent::Text(content.to_string()),
        msg_id: msg_id.to_string(),
    }
}

fn request(messages: Vec<Message>) -> CompletionRequest {
    CompletionRequest {
        model: "codex_app_server/gpt".to_string(),
        messages,
        tools: Vec::new(),
        system: Some("sys".to_string()),
    }
}

/// Steps, and hands back what the step leads to.
fn step(run: TurnRun, state: &mut DriverState, event: Event) -> (TurnRun, Action) {
    assert!(run.expects(&event), "unexpected {event:?}");
    run.step(state, &event, &host())
}

fn written(action: &Action) -> &Json {
    match action {
        Action::Write(json) => json,
        other => panic!("no write: {other:?}"),
    }
}

fn failure(action: Action) -> LlmError {
    match action {
        Action::Done(Err(e)) => e,
        other => panic!("no failure: {other:?}"),
    }
}

fn reply(action: Action) -> CompletionResponse {
    match action {
        Action::Done(Ok(reply)) => reply,
        other => panic!("no reply: {other:?}"),
    }
}

/// Spawns, initializes and starts the thread `T`.
fn with_thread(streaming: bool) -> (DriverState, TurnRun, Action) {
    let mut state = DriverState::new();
    let (run, action) = TurnRun::begin(&state, &request(vec![user("hi", "k")]), streaming);
    assert!(matches!(action, Action::Spawn));
    let (run, action) = step(run, &mut state, Event::Spawned(Ok(())));
    assert_eq!(written(&action).get("id"), Some(&number(1)));
    assert_eq!(written(&action).get("method"), Some(&text("initialize")));
    let (run, action) = step(run, &mut state, Event::Written(Ok(())));
    assert!(matches!(action, Action::Read));
    assert_eq!(state.session, None);
    let (run, action) = step(run, &mut state, frame(object(vec![("id", number(1))])));
    assert_eq!(written(&action).get("id"), Some(&number(2)));
    assert_eq!(written(&action).get("method"), Some(&text("thread/start")));
    assert_eq!(
        written(&action).get("params"),
        Some(&CodexAppServerDriver::thread_params(
            "codex_app_server/gpt",
            Some("/w"),
            Some("sys")
        ))
    );
    assert_eq!(state.session, Some(AppServerSession { next_id: 3 }));
    let (run, _) = step(run, &mut state, Event::Written(Ok(())));
    let started = object(vec![
        ("id", number(2)),
        (
            "result",
            object(vec![("thread", object(vec![("id", text("T"))]))]),
        ),
    ]);
    let (run, action) = step(run, &mut state, frame(started));
    assert!(matches!(action, Action::CheckSession));
    (state, run, action)
}

/// Goes on to the turn `U`, which then reads.
fn with_turn(streaming: bool) -> (DriverState, TurnRun) {
    let (mut state, run, _) = with_thread(streaming);
    let (run, action) = step(run, &mut state, Event::Session { alive: true });
    assert_eq!(
        written(&action),
        &CodexAppServerDriver::request_json(
            3,
            "turn/start",
            CodexAppServerDriver::turn_params(
                "T",
                "[System]\nsys\n\n[User]\nhi",
                "codex_app_server/gpt",
                Some("/w")
            )
        )
    );
    let (run, _) = step(run, &mut state, Event::Written(Ok(())));
    let started = object(vec![
        ("id", number(3)),
        (
            "result",
            object(vec![("turn", object(vec![("id", text("U"))]))]),
        ),
    ]);
    let (run, action) = step(run, &mut state, frame(started));
    assert!(matches!(action, Action::Read));
    (state, run)
}

fn notice(method: &str, mut params: Vec<(&str, Json)>) -> Json {
    params.push(("threadId", text("T")));
    params.push(("turnId", text("U")));
    object(vec![("method", text(method)), ("params", object(params))])
}

fn delta(words: &str) -> Json {
    notice("item/agentMessage/delta", vec![("delta", text(words))])
}

fn usage(input: u64, output: u64) -> Json {
    notice(
        "thread/tokenUsage/updated",
        vec![(
            "tokenUsage",
            object(vec![(
                "last",
                object(vec![
                    ("inputTokens", number(input)),
                    ("outputTokens", number(output)),
                ]),
            )]),
        )],
    )
}

fn completion(words: &str) -> Json {
    notice(
        "turn/completed",
        vec![(
            "turn",
            object(vec![(
                "items",
                Json::Array(vec![object(vec![
                    ("type", text("agentMessage")),
                    ("text", text(words)),
                ])]),
            )]),
        )],
    )
}

#[test]
fn turn_replies_with_its_deltas() {
    let (mut state, run) = with_turn(false);
    let (run, _) = step(run, &mut state, frame(delta("Hel")));
    let (run, _) = step(run, &mut state, frame(usage(10, 5)));
    let (run, _) = step(run, &mut state, frame(delta("lo")));
    let (run, _) = step(run, &mut state, frame(usage(11, 6)));
    let (_, action) = step(run, &mut state, frame(completion("other")));
    assert_eq!(
        reply(action),
        CompletionResponse {
            content: vec![ContentBlock::Text {
                text: "Hello".to_string(),
                provider_metadata: None
            }],
            stop_reason: StopReason::EndTurn,
            tool_calls: Vec::new(),
            usage: TokenUsage {
                input_tokens: 11,
                output_tokens: 6
            },
        }
    );
    assert_eq!(
        state.threads.get("k"),
        Some(&ThreadState {
            thread_id: "T".to_string(),
            model: "codex_app_server/gpt".to_string(),
            sent_message_count: 2,
        })
    );
    assert_eq!(state.session, Some(AppServerSession { next_id: 4 }));
}

#[test]
fn turn_without_deltas_replies_with_the_completion() {
    let (mut state, run) = with_turn(false);
    let (_, action) = step(run, &mut state, frame(completion("whole")));
    let got = reply(action);
    assert_eq!(
        got.content,
        vec![ContentBlock::Text {
            text: "whole".to_string(),
            provider_metadata: None
        }]
    );
    assert_eq!(
        got.usage,
        TokenUsage {
            input_tokens: 0,
            output_tokens: 0
        }
    );
}

#[test]
fn streaming_turn_shows_its_deltas_and_its_end() {
    let (mut state, run) = with_turn(true);
    let (run, action) = step(run, &mut state, frame(delta("Hi")));
    match action {
        Action::Emit(event) => assert_eq!(
            event,
            StreamEvent::TextDelta {
                text: "Hi".to_string()
            }
        ),
        other => panic!("no event: {other:?}"),
    }
    let (run, action) = step(run, &mut state, Event::Emitted);
    assert!(matches!(action, Action::Read));
    let (run, action) = step(run, &mut state, frame(completion("")));
    match action {
        Action::Emit(event) => assert_eq!(
            event,
            StreamEvent::ContentComplete {
                stop_reason: StopReason::EndTurn,
                usage: TokenUsage {
                    input_tokens: 0,
                    output_tokens: 0
                },
            }
        ),
        other => panic!("no event: {other:?}"),
    }
    let (run, action) = step(run, &mut state, Event::Emitted);
    assert_eq!(reply(action).content.len(), 1);
    assert!(!run.expects(&Event::Emitted));
}

#[test]
fn frames_of_other_turns_add_nothing() {
    let (mut state, run) = with_turn(false);
    let other_turn = object(vec![
        ("method", text("item/agentMessage/delta")),
        (
            "params",
            object(vec![
                ("threadId", text("T")),
                ("turnId", text("V")),
                ("delta", text("no")),
            ]),
        ),
    ]);
    let other_thread = object(vec![
        ("method", text("turn/completed")),
        ("params", object(vec![("threadId", text("S"))])),
    ]);
    let unlimited = object(vec![
        ("method", text("account/rateLimits/updated")),
        ("params", object(vec![])),
    ]);
    let mut run = run;
    for json in [other_turn, other_thread, unlimited, object(vec![]), Json::Null] {
        let (next, action) = step(run, &mut state, frame(json));
        assert!(matches!(action, Action::Read));
        run = next;
    }
    let blank = Event::Read(ReadOutcome::Line("  ".to_string()));
    let (run, action) = step(run, &mut state, blank);
    assert!(matches!(action, Action::Read));
    let (_, action) = step(run, &mut state, frame(completion("whole")));
    assert_eq!(reply(action).content.len(), 1);
}

#[test]
fn running_turn_rejects_server_requests() {
    let (mut state, run) = with_turn(false);
    let asked = object(vec![
        ("id", text("x")),
        ("method", text("execCommandApproval")),
    ]);
    let (run, action) = step(run, &mut state, frame(asked));
    assert_eq!(
        written(&action),
        &object(vec![
            ("id", text("x")),
            ("result", object(vec![("decision", text("denied"))])),
        ])
    );
    let (run, action) = step(run, &mut state, Event::Written(Ok(())));
    assert!(matches!(action, Action::Read));
    let asked = object(vec![("id", number(9)), ("method", Json::Null)]);
    let (run, _) = step(run, &mut state, frame(asked));
    let (_, action) = step(
        run,
        &mut state,
        Event::Written(Err(WriteFailure::Write("pipe".to_string()))),
    );
    assert_eq!(
        failure(action),
        LlmError::Http("Failed to write to Codex app-server: pipe".to_string())
    );
    assert_eq!(state.session, None);
}

#[test]
fn waiting_request_rejects_server_requests_with_a_number() {
    let mut state = DriverState::new();
    let (run, _) = TurnRun::begin(&state, &request(vec![user("hi", "k")]), false);
    let (run, _) = step(run, &mut state, Event::Spawned(Ok(())));
    let (run, _) = step(run, &mut state, Event::Written(Ok(())));
    let asked = object(vec![("id", number(40)), ("method", text("item/tool/call"))]);
    let (run, action) = step(run, &mut state, frame(asked));
    assert_eq!(written(&action).get("id"), Some(&number(40)));
    assert_eq!(
        written(&action).get_nested("result", "success"),
        Some(&Json::Bool(false))
    );
    let (run, _) = step(run, &mut state, Event::Written(Ok(())));
    let passed = [
        object(vec![("id", text("s")), ("method", text("item/tool/call"))]),
        object(vec![("id", number(41))]),
        object(vec![("method", text("initialized"))]),
    ];
    let mut run = run;
    for json in passed {
        let (next, action) = step(run, &mut state, frame(json));
        assert!(matches!(action, Action::Read));
        run = next;
    }
}

#[test]
fn failed_turn_gives_up_the_session() {
    for (json, expected) in [
        (
            notice(
                "error",
                vec![("error", object(vec![("message", text("boom"))]))],
            ),
            LlmError::Api {
                status: 0,
                message: "boom".to_string(),
            },
        ),
        (
            object(vec![
                ("method", text("account/rateLimits/updated")),
                (
                    "params",
                    object(vec![(
                        "rateLimits",
                        object(vec![("rateLimitReachedType", text("primary"))]),
                    )]),
                ),
            ]),
            LlmError::RateLimited {
                retry_after_ms: 60_000,
            },
        ),
    ] {
        let (mut state, run) = with_turn(false);
        let (_, action) = step(run, &mut state, frame(json));
        assert_eq!(failure(action), expected);
        assert_eq!(state.session, None);
        assert_eq!(state.threads.get("k").map(|t| t.sent_message_count), Some(0));
    }
    let (mut state, run) = with_turn(false);
    let (_, action) = step(run, &mut state, Event::Read(ReadOutcome::Closed));
    assert_eq!(
        failure(action),
        LlmError::Http("Codex app-server closed stdout unexpectedly".to_string())
    );
    assert_eq!(state.session, None);
}

#[test]
fn failed_request_keeps_the_session() {
    let (mut state, run, _) = with_thread(false);
    let (run, _) = step(run, &mut state, Event::Session { alive: true });
    let (run, _) = step(run, &mut state, Event::Written(Ok(())));
    let refused = object(vec![
        ("id", number(3)),
        (
            "error",
            object(vec![("message", text("busy")), ("code", number(503))]),
        ),
    ]);
    let (_, action) = step(run, &mut state, frame(refused));
    assert_eq!(
        failure(action),
        LlmError::Api {
            status: 503,
            message: "busy".to_string()
        }
    );
    assert_eq!(state.session, Some(AppServerSession { next_id: 4 }));
}

#[test]
fn response_without_an_id_is_an_error() {
    let (mut state, run, _) = with_thread(false);
    let (run, _) = step(run, &mut state, Event::Session { alive: true });
    let (run, _) = step(run, &mut state, Event::Written(Ok(())));
    let (_, action) = step(run, &mut state, frame(object(vec![("id", number(3))])));
    assert_eq!(
        failure(action),
        LlmError::Parse(
            "Codex app-server turn/start response missing turn id: null".to_string()
        )
    );

    let mut state = DriverState::new();
    let (run, _) = TurnRun::begin(&state, &request(vec![user("hi", "k")]), false);
    let (run, _) = step(run, &mut state, Event::Spawned(Ok(())));
    let (run, _) = step(run, &mut state, Event::Written(Ok(())));
    let (run, _) = step(run, &mut state, frame(object(vec![("id", number(1))])));
    let (run, _) = step(run, &mut state, Event::Written(Ok(())));
    let other = object(vec![
        ("thread", object(vec![("name", text("a\"b"))])),
        ("also", Json::Array(vec![number(1), Json::Null])),
    ]);
    let wrong = object(vec![("id", number(2)), ("result", other)]);
    let (_, action) = step(run, &mut state, frame(wrong));
    assert_eq!(
        failure(action),
        LlmError::Parse(
            "Codex app-server thread/start response missing thread id: \
             {\"also\":[1,null],\"thread\":{\"name\":\"a\\\"b\"}}"
                .to_string()
        )
    );
    assert_eq!(state.threads.get("k"), None);
}

#[test]
fn failed_start_is_reported() {
    let mut state = DriverState::new();
    let (run, _) = TurnRun::begin(&state, &request(vec![user("hi", "k")]), false);
    let (_, action) = step(run, &mut state, Event::Spawned(Err(SpawnFailure::NoStdout)));
    assert_eq!(
        failure(action),
        LlmError::Http("No stdout from Codex app-server".to_string())
    );

    let (run, _) = TurnRun::begin(&state, &request(vec![user("hi", "k")]), false);
    let (run, _) = step(run, &mut state, Event::Spawned(Ok(())));
    let (_, action) = step(
        run,
        &mut state,
        Event::Written(Err(WriteFailure::Flush("pipe".to_string()))),
    );
    assert_eq!(
        failure(action),
        LlmError::Http("Failed to flush Codex app-server stdin: pipe".to_string())
    );
    assert_eq!(state.session, None);
}

#[test]
fn ended_session_is_started_anew() {
    let (mut state, run, _) = with_thread(false);
    let (run, action) = step(run, &mut state, Event::Session { alive: false });
    assert!(matches!(action, Action::Spawn));
    assert_eq!(state.session, None);
    let (run, action) = step(run, &mut state, Event::Spawned(Ok(())));
    assert_eq!(written(&action).get("id"), Some(&number(1)));
    let (run, _) = step(run, &mut state, Event::Written(Ok(())));
    let (_, action) = step(run, &mut state, frame(object(vec![("id", number(1))])));
    assert_eq!(written(&action).get("method"), Some(&text("turn/start")));
    assert_eq!(written(&action).get("id"), Some(&number(2)));
}

#[test]
fn lost_session_is_an_error() {
    let (mut state, run, _) = with_thread(false);
    state.session = None;
    let (_, action) = step(run, &mut state, Event::Session { alive: true });
    assert_eq!(
        failure(action),
        LlmError::Http("Codex app-server session was not available after spawn".to_string())
    );
}

#[test]
fn conversation_goes_on_in_its_thread() {
    let (mut state, run) = with_turn(false);
    let (_, action) = step(run, &mut state, frame(completion("hello")));
    assert_eq!(reply(action).content.len(), 1);

    let mut answered = user("hello", "r");
    answered.role = Role::Assistant;
    let next = request(vec![user("hi", "k"), answered, user("more", "m")]);
    let (run, action) = TurnRun::begin(&state, &next, false);
    assert!(matches!(action, Action::CheckSession));
    let (_, action) = step(run, &mut state, Event::Session { alive: true });
    assert_eq!(
        written(&action).get("params"),
        Some(&CodexAppServerDriver::turn_params(
            "T",
            "[System]\nsys\n\n[User]\nmore",
            "codex_app_server/gpt",
            Some("/w")
        ))
    );

    let mut changed = next;
    changed.model = "codex_app_server/other".to_string();
    let (run, _) = TurnRun::begin(&state, &changed, false);
    let (_, action) = step(run, &mut state, Event::Session { alive: true });
    assert_eq!(written(&action).get("method"), Some(&text("thread/start")));
}

#[test]
fn other_conversations_are_untouched() {
    let (mut state, run) = with_turn(false);
    state.threads.put(
        "other",
        ThreadState {
            thread_id: "O".to_string(),
            model: "m".to_string(),
            sent_message_count: 7,
        },
    );
    let (_, action) = step(run, &mut state, frame(completion("x")));
    assert_eq!(reply(action).content.len(), 1);
    assert_eq!(state.threads.get("k").map(|t| t.sent_message_count), Some(2));
    assert_eq!(
        state.threads.get("other").map(|t| t.sent_message_count),
        Some(7)
    );
    assert_eq!(state.threads.entries.len(), 2);
}

#[test]
fn line_that_is_no_json_ends_the_turn() {
    let (mut state, run) = with_turn(false);
    let line = Event::Read(ReadOutcome::Line(" nope ".to_string()));
    let (_, action) = step(run, &mut state, line);
    assert_eq!(
        failure(action),
        LlmError::Parse(
            "Failed to parse Codex app-server JSON frame: \
             expected ident at line 1 column 2: nope"
                .to_string()
        )
    );
    assert_eq!(state.session, None);
}

#[test]
fn turn_takes_what_was_read() {
    let (mut state, run) = with_turn(false);
    let (run, action) = run.step_read(&mut state, Ok(Some(delta("Hi"))), &host());
    assert!(matches!(action, Action::Read));
    let (run, action) = run.step_read(&mut state, Ok(None), &host());
    assert!(matches!(action, Action::Read));
    let (_, action) = run.step_read(&mut state, Ok(Some(completion("no"))), &host());
    assert_eq!(
        reply(action).content,
        vec![ContentBlock::Text {
            text: "Hi".to_string(),
            provider_metadata: None
        }]
    );
}

#[test]
fn used_up_ids_do_not_stop_a_running_turn() {
    let (mut state, run) = with_turn(false);
    state.session = Some(AppServerSession { next_id: u64::MAX });
    let (_, action) = step(run, &mut state, frame(completion("hello")));
    assert_eq!(reply(action).content.len(), 1);
}
