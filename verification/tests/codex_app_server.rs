use openfang_core::codex_app_server::environment::home_dir;
use openfang_core::codex_app_server::protocol::{
    accept_frame, encode_frame, read_frame, spawn_error, timeout_error, write_error, ReadOutcome,
    SpawnFailure, WriteFailure,
};
use openfang_core::codex_app_server::threads::ThreadState;
use openfang_core::codex_app_server::{
    codex_app_server_available, CodexAppServerDriver, CommandOutput,
};
use openfang_core::codex_app_server::prompt::tool_use_words;
use openfang_core::json::{Json, JsonMember, JsonObject};
use openfang_core::json_text::{encode_json, json_to_string, parse_json};
use openfang_core::llm::{
    CompletionRequest, ContentBlock, LlmError, Message, MessageContent, Role,
};

fn text(s: &str) -> Json {
    Json::Text(s.to_string())
}

fn number(v: u64) -> Json {
    Json::Number(serde_json::Number::from(v))
}

fn object(members: Vec<(&str, Json)>) -> Json {
    Json::Object(JsonObject {
        members: members
            .into_iter()
            .map(|(key, value)| JsonMember {
                key: key.to_string(),
                value,
            })
            .collect(),
    })
}

fn message(role: Role, content: &str, msg_id: &str) -> Message {
    Message {
        role,
        content: MessageContent::Text(content.to_string()),
        msg_id: msg_id.to_string(),
    }
}

fn request(messages: Vec<Message>) -> CompletionRequest {
    CompletionRequest {
        model: "codex_app_server/gpt-5.4".to_string(),
        messages,
        tools: Vec::new(),
        system: None,
    }
}

fn thread(sent_message_count: usize) -> ThreadState {
    ThreadState {
        thread_id: "t".to_string(),
        model: "m".to_string(),
        sent_message_count,
    }
}

#[test]
fn test_model_flag_strips_provider_prefix() {
    assert_eq!(
        CodexAppServerDriver::model_flag("codex_app_server/gpt-5.4"),
        Some("gpt-5.4".to_string())
    );
    assert_eq!(
        CodexAppServerDriver::model_flag("codex-app-server/gpt-5.4"),
        Some("gpt-5.4".to_string())
    );
    assert_eq!(CodexAppServerDriver::model_flag("default"), None);
}

#[test]
fn test_build_prompt_renders_roles() {
    let user = message(Role::User, "hello", "1");
    let assistant = message(Role::Assistant, "hi", "2");
    let prompt = CodexAppServerDriver::build_prompt(&[&user, &assistant], Some("sys"));
    assert!(prompt.contains("[System]\nsys"));
    assert!(prompt.contains("[User]\nhello"));
    assert!(prompt.contains("[Assistant]\nhi"));
}

#[test]
fn test_parse_usage_prefers_last_turn() {
    let params = object(vec![(
        "tokenUsage",
        object(vec![
            (
                "total",
                object(vec![("inputTokens", number(100)), ("outputTokens", number(50))]),
            ),
            (
                "last",
                object(vec![("inputTokens", number(10)), ("outputTokens", number(5))]),
            ),
        ]),
    )]);
    let usage = CodexAppServerDriver::parse_usage(&params);
    assert_eq!(usage.input_tokens, 10);
    assert_eq!(usage.output_tokens, 5);
}

#[test]
fn model_flag_edge_cases() {
    assert_eq!(CodexAppServerDriver::model_flag(""), None);
    assert_eq!(CodexAppServerDriver::model_flag("codex_app_server/"), None);
    assert_eq!(
        CodexAppServerDriver::model_flag("codex-app-server/default"),
        None
    );
    assert_eq!(
        CodexAppServerDriver::model_flag("o4"),
        Some("o4".to_string())
    );
    assert_eq!(
        CodexAppServerDriver::model_flag("codex_app_server/codex-app-server/x"),
        Some("codex-app-server/x".to_string())
    );
}

#[test]
fn prompt_has_its_exact_form() {
    let user = message(Role::User, "hello", "1");
    let silent = message(Role::Assistant, "", "2");
    let system = message(Role::System, "rules", "3");
    assert_eq!(
        CodexAppServerDriver::build_prompt(&[&user, &silent, &system], Some("sys")),
        "[System]\nsys\n\n[User]\nhello\n\n[System]\nrules"
    );
    assert_eq!(
        CodexAppServerDriver::build_prompt(&[&user], Some(" \n")),
        "[User]\nhello"
    );
    assert_eq!(CodexAppServerDriver::build_prompt(&[], None), "");
}

#[test]
fn blocks_are_worded() {
    let content = MessageContent::Blocks(vec![
        ContentBlock::Text {
            text: "one".to_string(),
            provider_metadata: None,
        },
        ContentBlock::Text {
            text: String::new(),
            provider_metadata: None,
        },
        ContentBlock::Image {
            media_type: "image/png".to_string(),
            data: "A".repeat(4096),
        },
        ContentBlock::ToolUse {
            id: "1".to_string(),
            name: "grep".to_string(),
            input: object(vec![("q", number(1))]),
        },
        ContentBlock::ToolResult {
            tool_use_id: "1".to_string(),
            tool_name: "grep".to_string(),
            content: "found".to_string(),
            is_error: false,
        },
        ContentBlock::ToolResult {
            tool_use_id: "2".to_string(),
            tool_name: "ls".to_string(),
            content: "denied".to_string(),
            is_error: true,
        },
        ContentBlock::Thinking {
            thinking: "hm".to_string(),
        },
        ContentBlock::RedactedThinking {
            data: "x".to_string(),
        },
        ContentBlock::Unknown,
    ]);
    assert_eq!(
        CodexAppServerDriver::render_content(&content),
        "one\n[attachment: image/png image, ~3 KB - not viewable on this provider]\n\
         [tool use: grep]\n{\"q\":1}\n[tool result: grep]\nfound\n[tool result: ls error]\ndenied"
    );
}

#[test]
fn conversation_is_named_by_its_first_speaker() {
    let system = message(Role::System, "s", "0");
    let user = message(Role::User, "u", "1");
    let reply = message(Role::Assistant, "r", "2");
    assert_eq!(
        CodexAppServerDriver::conversation_key(&request(vec![
            message(Role::System, "s", "0"),
            user,
            reply
        ])),
        "1"
    );
    assert_eq!(
        CodexAppServerDriver::conversation_key(&request(vec![system])),
        "default"
    );
    assert_eq!(
        CodexAppServerDriver::conversation_key(&request(vec![])),
        "default"
    );
}

#[test]
fn turn_sends_what_the_thread_has_not_seen() {
    let r = request(vec![
        message(Role::User, "a", "1"),
        message(Role::Assistant, "b", "2"),
        message(Role::User, "c", "3"),
        message(Role::Assistant, "d", "4"),
    ]);
    let ids = |t: Option<&ThreadState>| -> Vec<String> {
        CodexAppServerDriver::messages_for_turn(&r, t)
            .iter()
            .map(|m| m.msg_id.clone())
            .collect()
    };
    assert_eq!(ids(None), vec!["1", "2", "3", "4"]);
    assert_eq!(ids(Some(&thread(0))), vec!["1", "2", "3", "4"]);
    assert_eq!(ids(Some(&thread(2))), vec!["3", "4"]);
    assert_eq!(ids(Some(&thread(4))), vec!["3"]);
    assert_eq!(ids(Some(&thread(9))), vec!["3"]);
    let silent = request(vec![message(Role::Assistant, "a", "1")]);
    assert_eq!(
        CodexAppServerDriver::messages_for_turn(&silent, Some(&thread(5))).len(),
        1
    );
}

#[test]
fn usage_falls_back_to_the_total_and_to_zero() {
    let total = object(vec![(
        "tokenUsage",
        object(vec![("total", object(vec![("inputTokens", number(7))]))]),
    )]);
    let usage = CodexAppServerDriver::parse_usage(&total);
    assert_eq!((usage.input_tokens, usage.output_tokens), (7, 0));
    let null_last = object(vec![(
        "tokenUsage",
        object(vec![
            ("last", Json::Null),
            ("total", object(vec![("inputTokens", number(7))])),
        ]),
    )]);
    let usage = CodexAppServerDriver::parse_usage(&null_last);
    assert_eq!((usage.input_tokens, usage.output_tokens), (0, 0));
    let usage = CodexAppServerDriver::parse_usage(&Json::Null);
    assert_eq!((usage.input_tokens, usage.output_tokens), (0, 0));
}

#[test]
fn turn_text_is_that_of_the_agent() {
    let item = |kind: &str, words: &str| object(vec![("type", text(kind)), ("text", text(words))]);
    let params = object(vec![(
        "turn",
        object(vec![(
            "items",
            Json::Array(vec![
                item("userMessage", "no"),
                item("agentMessage", "one "),
                object(vec![("type", text("agentMessage"))]),
                item("agentMessage", "two"),
            ]),
        )]),
    )]);
    assert_eq!(CodexAppServerDriver::extract_turn_text(&params), "one two");
    assert_eq!(CodexAppServerDriver::extract_turn_text(&Json::Null), "");
}

#[test]
fn server_requests_are_rejected() {
    let reject = |method: &str| {
        CodexAppServerDriver::reject_server_request(&object(vec![
            ("id", text("r-1")),
            ("method", text(method)),
        ]))
        .unwrap()
    };
    let decided = |word: &str| {
        object(vec![
            ("id", text("r-1")),
            ("result", object(vec![("decision", text(word))])),
        ])
    };
    assert_eq!(
        reject("item/commandExecution/requestApproval"),
        decided("decline")
    );
    assert_eq!(reject("item/fileChange/requestApproval"), decided("decline"));
    assert_eq!(reject("applyPatchApproval"), decided("denied"));
    assert_eq!(reject("execCommandApproval"), decided("denied"));
    assert_eq!(
        reject("item/tool/requestUserInput"),
        object(vec![
            ("id", text("r-1")),
            ("result", object(vec![("answers", object(vec![]))])),
        ])
    );
    assert_eq!(
        reject("item/tool/call"),
        object(vec![
            ("id", text("r-1")),
            (
                "result",
                object(vec![
                    ("contentItems", Json::Array(vec![])),
                    ("success", Json::Bool(false)),
                ])
            ),
        ])
    );
    assert_eq!(
        reject("fs/read"),
        object(vec![
            ("id", text("r-1")),
            (
                "error",
                object(vec![
                    ("code", Json::Number(serde_json::Number::from(-32601))),
                    (
                        "message",
                        text("OpenFang Codex app-server driver does not support server request `fs/read`")
                    ),
                ])
            ),
        ])
    );
}

#[test]
fn rejection_needs_an_id_and_not_a_method() {
    assert_eq!(
        CodexAppServerDriver::reject_server_request(&object(vec![("method", text("x"))])),
        None
    );
    let answer =
        CodexAppServerDriver::reject_server_request(&object(vec![("id", number(4))])).unwrap();
    assert_eq!(answer.get("id"), Some(&number(4)));
    assert_eq!(
        answer.get_nested("error", "message"),
        Some(&text(
            "OpenFang Codex app-server driver does not support server request `unknown`"
        ))
    );
}

#[test]
fn errors_are_mapped_by_their_words() {
    let login = |detail: &str| {
        LlmError::AuthenticationFailed(format!(
            "Codex CLI is not authenticated. Run `codex login`. Detail: {detail}"
        ))
    };
    for words in ["UNAUTHORIZED", "You are Not Authenticated", "please Login", "OAuth"] {
        assert_eq!(CodexAppServerDriver::map_error(words, None), login(words));
    }
    for words in ["Rate Limit hit", "USAGE LIMIT"] {
        assert_eq!(
            CodexAppServerDriver::map_error(words, Some(5)),
            LlmError::RateLimited {
                retry_after_ms: 60_000
            }
        );
    }
    let api = |status: u16| LlmError::Api {
        status,
        message: "boom".to_string(),
    };
    assert_eq!(CodexAppServerDriver::map_error("boom", None), api(0));
    assert_eq!(CodexAppServerDriver::map_error("boom", Some(500)), api(500));
    assert_eq!(CodexAppServerDriver::map_error("boom", Some(-32601)), api(0));
    assert_eq!(CodexAppServerDriver::map_error("boom", Some(65_537)), api(1));
    assert_eq!(
        CodexAppServerDriver::map_error("boom", Some(i64::MAX)),
        api(65_535)
    );
}

#[test]
fn response_errors_carry_message_and_code() {
    assert_eq!(
        CodexAppServerDriver::jsonrpc_error(&object(vec![
            ("message", text("boom")),
            ("code", number(404)),
        ])),
        LlmError::Api {
            status: 404,
            message: "boom".to_string()
        }
    );
    assert_eq!(
        CodexAppServerDriver::jsonrpc_error(&Json::Null),
        LlmError::Api {
            status: 0,
            message: "Codex app-server request failed".to_string()
        }
    );
    assert_eq!(
        CodexAppServerDriver::jsonrpc_error(&object(vec![
            ("message", text("boom")),
            ("code", number(u64::MAX)),
        ])),
        LlmError::Api {
            status: 0,
            message: "boom".to_string()
        }
    );
}

#[test]
fn turn_errors_are_told_by_their_info() {
    let error = |info: &str| {
        object(vec![(
            "error",
            object(vec![
                ("message", text("boom")),
                ("codexErrorInfo", text(info)),
            ]),
        )])
    };
    assert_eq!(
        CodexAppServerDriver::turn_error(&error("unauthorized")),
        LlmError::AuthenticationFailed(
            "Codex CLI is not authenticated. Run `codex login`. Detail: boom".to_string()
        )
    );
    assert_eq!(
        CodexAppServerDriver::turn_error(&error("usageLimitExceeded")),
        LlmError::RateLimited {
            retry_after_ms: 60_000
        }
    );
    assert_eq!(
        CodexAppServerDriver::turn_error(&error("other")),
        LlmError::Api {
            status: 0,
            message: "boom".to_string()
        }
    );
    assert_eq!(
        CodexAppServerDriver::turn_error(&Json::Null),
        LlmError::Api {
            status: 0,
            message: "Codex app-server turn failed".to_string()
        }
    );
    assert_eq!(
        CodexAppServerDriver::turn_error(&object(vec![("message", text("bare"))])),
        LlmError::Api {
            status: 0,
            message: "bare".to_string()
        }
    );
}

#[test]
fn rate_limit_needs_a_type() {
    let limits = |kind: Json| {
        object(vec![(
            "rateLimits",
            object(vec![("rateLimitReachedType", kind)]),
        )])
    };
    assert!(CodexAppServerDriver::rate_limit_reached(&limits(text("primary"))));
    assert!(!CodexAppServerDriver::rate_limit_reached(&limits(Json::Null)));
    assert!(!CodexAppServerDriver::rate_limit_reached(&Json::Null));
}

#[test]
fn parameters_have_their_exact_form() {
    assert_eq!(
        CodexAppServerDriver::request_json(
            7,
            "initialize",
            CodexAppServerDriver::initialize_params("1.2.3")
        ),
        object(vec![
            ("id", number(7)),
            ("method", text("initialize")),
            (
                "params",
                object(vec![
                    (
                        "clientInfo",
                        object(vec![
                            ("name", text("openfang")),
                            ("title", text("OpenFang")),
                            ("version", text("1.2.3")),
                        ])
                    ),
                    (
                        "capabilities",
                        object(vec![
                            ("experimentalApi", Json::Bool(true)),
                            ("requestAttestation", Json::Bool(false)),
                            ("optOutNotificationMethods", Json::Array(vec![])),
                        ])
                    ),
                ])
            ),
        ])
    );
    let thread = CodexAppServerDriver::thread_params("codex_app_server/x", Some("/w"), None);
    assert_eq!(thread.get("model"), Some(&text("x")));
    assert_eq!(thread.get("modelProvider"), Some(&Json::Null));
    assert_eq!(thread.get("cwd"), Some(&text("/w")));
    assert_eq!(thread.get("approvalPolicy"), Some(&text("never")));
    assert_eq!(thread.get("sandbox"), Some(&text("read-only")));
    assert_eq!(thread.get("serviceName"), Some(&text("openfang")));
    assert_eq!(thread.get("baseInstructions"), Some(&Json::Null));
    assert_eq!(thread.get("ephemeral"), Some(&Json::Bool(true)));
    assert_eq!(thread.get("experimentalRawEvents"), Some(&Json::Bool(false)));
    assert_eq!(thread.get("persistExtendedHistory"), Some(&Json::Bool(false)));
    let turn = CodexAppServerDriver::turn_params("t", "hi", "default", None);
    assert_eq!(
        turn,
        object(vec![
            ("threadId", text("t")),
            (
                "input",
                Json::Array(vec![object(vec![
                    ("type", text("text")),
                    ("text", text("hi")),
                    ("text_elements", Json::Array(vec![])),
                ])])
            ),
            ("model", Json::Null),
            ("cwd", Json::Null),
            ("approvalPolicy", text("never")),
        ])
    );
}

#[test]
fn environment_loses_its_secrets() {
    let names: Vec<String> = [
        "PATH",
        "MY_SECRET",
        "github_token",
        "Db_Password",
        "CODEX_TOKEN",
        "codex_token",
        "TOKEN",
        "MY_TOKEN_ID",
        "stra\u{df}e_token",
    ]
    .iter()
    .map(|s| s.to_string())
    .collect();
    let removed = CodexAppServerDriver::apply_env_filter(&names);
    assert_eq!(removed.len(), 21 + 5);
    assert_eq!(removed[0], "OPENAI_API_KEY");
    assert_eq!(removed[17], "REPLICATE_API_TOKEN");
    assert_eq!(removed[20], "ELEVENLABS_API_KEY");
    assert_eq!(
        &removed[21..],
        &[
            "MY_SECRET",
            "github_token",
            "Db_Password",
            "codex_token",
            "stra\u{df}e_token",
        ]
    );
}

#[test]
fn home_is_the_first_that_is_filled() {
    let some = |s: &str| Some(s.to_string());
    assert_eq!(home_dir(some("/h"), some("C:\\u")), some("/h"));
    assert_eq!(home_dir(some(""), some("C:\\u")), some("C:\\u"));
    assert_eq!(home_dir(None, some("")), None);
}

#[test]
fn server_is_started_over_stdio() {
    assert_eq!(
        CodexAppServerDriver::spawn_args(),
        vec!["app-server", "--listen", "stdio://"]
    );
}

#[test]
fn driver_has_its_defaults() {
    let driver = CodexAppServerDriver::new(None);
    assert_eq!(driver.cli_path, "codex");
    assert_eq!(driver.message_timeout_secs, 300);
    let driver = CodexAppServerDriver::new(Some(String::new()));
    assert_eq!(driver.cli_path, "codex");
    let driver = CodexAppServerDriver::with_timeout(Some("/bin/codex".to_string()), 5);
    assert_eq!(driver.cli_path, "/bin/codex");
    assert_eq!(driver.message_timeout_secs, 5);
}

#[test]
fn server_is_detected_by_its_help() {
    let ran = |success: bool, stdout: &[u8]| {
        Some(CommandOutput {
            success,
            stdout: stdout.to_vec(),
        })
    };
    assert_eq!(
        CodexAppServerDriver::detect(&ran(true, b" usage: \xff\n")),
        Some("usage: \u{fffd}".to_string())
    );
    assert!(codex_app_server_available(&ran(true, b"")));
    assert_eq!(CodexAppServerDriver::detect(&ran(false, b"usage")), None);
    assert!(!codex_app_server_available(&ran(false, b"usage")));
    assert!(!codex_app_server_available(&None));
}

#[test]
fn failures_have_their_words() {
    assert_eq!(
        spawn_error(&SpawnFailure::Start("os error 2".to_string())),
        LlmError::Http(
            "Codex CLI app-server not found or failed to start (os error 2). \
             Install Codex CLI, verify `codex --version`, then run `codex login`."
                .to_string()
        )
    );
    assert_eq!(
        spawn_error(&SpawnFailure::NoStdin),
        LlmError::Http("No stdin for Codex app-server".to_string())
    );
    assert_eq!(
        spawn_error(&SpawnFailure::NoStdout),
        LlmError::Http("No stdout from Codex app-server".to_string())
    );
    assert_eq!(
        write_error(&WriteFailure::Encode("bad".to_string())),
        LlmError::Parse("bad".to_string())
    );
    assert_eq!(
        write_error(&WriteFailure::Write("pipe".to_string())),
        LlmError::Http("Failed to write to Codex app-server: pipe".to_string())
    );
    assert_eq!(
        write_error(&WriteFailure::Flush("pipe".to_string())),
        LlmError::Http("Failed to flush Codex app-server stdin: pipe".to_string())
    );
    assert_eq!(
        timeout_error(300),
        LlmError::Http("Codex app-server turn timed out after 300s".to_string())
    );
}

#[test]
fn lines_become_frames() {
    let read = |line: &str| read_frame(&ReadOutcome::Line(line.to_string()));
    assert_eq!(read(" \r"), Ok(None));
    assert_eq!(read(" {} "), Ok(Some(object(vec![]))));
    assert_eq!(
        read(" {\"id\": 1, \"ok\": [true, -2, null, \"\\u00e9\"]}\r"),
        Ok(Some(object(vec![
            ("id", number(1)),
            (
                "ok",
                Json::Array(vec![
                    Json::Bool(true),
                    Json::Number(serde_json::Number::from(-2)),
                    Json::Null,
                    text("\u{e9}"),
                ])
            ),
        ])))
    );
    assert_eq!(
        read(" nope "),
        Err(LlmError::Parse(
            "Failed to parse Codex app-server JSON frame: \
             expected ident at line 1 column 2: nope"
                .to_string()
        ))
    );
    assert_eq!(
        read_frame(&ReadOutcome::Closed),
        Err(LlmError::Http(
            "Codex app-server closed stdout unexpectedly".to_string()
        ))
    );
    assert_eq!(
        read_frame(&ReadOutcome::Failed("io".to_string())),
        Err(LlmError::Http(
            "Failed to read from Codex app-server: io".to_string()
        ))
    );
}

#[test]
fn parse_decides_on_a_line() {
    assert_eq!(accept_frame("1", Ok(number(1))), Ok(number(1)));
    assert_eq!(
        accept_frame("x", Err("e".to_string())),
        Err(LlmError::Parse(
            "Failed to parse Codex app-server JSON frame: e: x".to_string()
        ))
    );
}

#[test]
fn json_text_is_compact_and_ordered() {
    let json = object(vec![
        ("b", Json::Array(vec![number(u64::MAX), Json::Bool(false)])),
        ("a", text("x\ny")),
        ("b", Json::Null),
    ]);
    assert_eq!(encode_json(&json), Ok("{\"a\":\"x\\ny\",\"b\":null}".to_string()));
    assert_eq!(
        encode_frame(&object(vec![("id", number(7))])),
        Ok("{\"id\":7}".to_string())
    );
}

#[test]
fn json_text_reads_back() {
    let line = "{\"a\":[1,-2,0.1,1e300,-0.0],\"b\":{\"c\":\"\u{e9}\\\\\"},\"d\":null,\"e\":true}";
    let json = parse_json(line).unwrap();
    let written = json_to_string(&json);
    assert_eq!(parse_json(&written).unwrap(), json);
    assert_eq!(json_to_string(&json.copied()), written);
    assert_eq!(
        parse_json("[1.5, 18446744073709551616]").map(|j| json_to_string(&j)),
        Ok("[1.5,1.8446744073709552e+19]".to_string())
    );
    assert_eq!(
        parse_json("{\"k\":1,\"k\":2}").map(|j| json_to_string(&j)),
        Ok("{\"k\":2}".to_string())
    );
    assert!(parse_json("").is_err());
}

#[test]
fn fractional_id_is_answered_as_it_came() {
    let asked = parse_json("{\"id\":0.1,\"method\":\"execCommandApproval\"}").unwrap();
    let answer = CodexAppServerDriver::reject_server_request(&asked).unwrap();
    assert_eq!(
        json_to_string(&answer),
        "{\"id\":0.1,\"result\":{\"decision\":\"denied\"}}"
    );
}

#[test]
fn tool_use_is_worded() {
    assert_eq!(tool_use_words("grep", "{}"), "[tool use: grep]\n{}");
}

#[test]
fn later_members_count() {
    let j = object(vec![("a", number(1)), ("a", number(2))]);
    assert_eq!(j.get("a"), Some(&number(2)));
    assert_eq!(j.get("b"), None);
    assert_eq!(Json::Array(vec![]).get("a"), None);
    assert_eq!(j.copied(), j);
}
