use std::collections::BTreeMap;

use local_agent::agent::Action;
use local_agent::agent::AgentOutput;
use local_agent::agent::EventType;
use local_agent::agent::FinishReason;
use local_agent::agent::Input;
use local_agent::agent::InputType;
use local_agent::agent::Message;
use local_agent::agent::MessageType;
use local_agent::agent::Metadata;
use local_agent::agent::Request;
use local_agent::agent::ResponseEvent;
use local_agent::agent::RunShellCommand;
use local_agent::agent::RunShellCommandResult;
use local_agent::agent::ShellCommandFinished;
use local_agent::agent::ShellOutcome;
use local_agent::agent::StreamFinished;
use local_agent::agent::StreamInit;
use local_agent::agent::Task;
use local_agent::agent::TaskContext;
use local_agent::agent::Timestamp;
use local_agent::agent::Tool;
use local_agent::agent::ToolCall;
use local_agent::agent::ToolCallResult;
use local_agent::agent::ToolResult;
use local_agent::agent::UserInput;
use local_agent::agent::UserInputType;
use local_agent::agent::UserInputs;
use local_agent::agent::UserQuery;
use local_agent::events::answer_refusal;
use local_agent::events::pick_target_task_id;
use local_agent::events::refusal_events;
use local_agent::events::DispatchError;
use local_agent::local_dispatch::append_new_inputs;
use local_agent::local_dispatch::dispatch_local;
use local_agent::local_dispatch::dispatch_local_with;
use local_agent::local_dispatch::translate_request;
use local_agent::local_dispatch::InputKind;
use local_agent::local_dispatch::SYSTEM_PROMPT;
use local_agent::local_provider::LocalEndpointConfig;
use local_agent::replies::OpenAiStreamChoice;
use local_agent::replies::OpenAiStreamChunk;
use local_agent::replies::OpenAiStreamDelta;
use local_agent::replies::OpenAiStreamFunctionDelta;
use local_agent::replies::OpenAiStreamToolCallDelta;
use local_agent::streaming::read_data;
use local_agent::streaming::CallStamp;
use local_agent::streaming::FrameData;
use local_agent::streaming::Stamps;
use local_agent::streaming::StreamFrame;
use local_agent::streaming::StreamingState;

fn make_config() -> LocalEndpointConfig {
    LocalEndpointConfig {
        base_url: "http://localhost:11434/v1".into(),
        model: "qwen2.5-coder:7b".into(),
        api_key: None,
    }
}

fn message(id: String, payload: Option<MessageType>) -> Message {
    Message {
        id,
        task_id: "task-1".into(),
        request_id: "req-1".into(),
        server_message_data: String::new(),
        citations: vec![],
        timestamp: None,
        message: payload,
    }
}

fn user_msg(text: &str) -> Message {
    message(
        format!("user-{text}"),
        Some(MessageType::UserQuery(UserQuery { query: text.into() })),
    )
}

fn agent_msg(text: &str) -> Message {
    message(
        format!("agent-{text}"),
        Some(MessageType::AgentOutput(AgentOutput { text: text.into() })),
    )
}

fn query_input(text: &str) -> UserInput {
    UserInput {
        input: Some(UserInputType::UserQuery(UserQuery { query: text.into() })),
    }
}

fn result_input(id: &str) -> UserInput {
    UserInput {
        input: Some(UserInputType::ToolCallResult(shell_result(id))),
    }
}

fn shell_result(id: &str) -> ToolCallResult {
    ToolCallResult {
        tool_call_id: id.into(),
        result: Some(ToolResult::RunShellCommand(RunShellCommandResult {
            command: "ls".into(),
            result: Some(ShellOutcome::CommandFinished(ShellCommandFinished {
                exit_code: 0,
                output: "Cargo.toml\n".into(),
            })),
            ..Default::default()
        })),
    }
}

fn batch(inputs: Vec<UserInput>) -> Input {
    Input {
        kind: Some(InputType::UserInputs(UserInputs { inputs })),
    }
}

fn user_inputs_request(history: Vec<Message>, latest: &str) -> Request {
    Request {
        task_context: Some(TaskContext {
            tasks: vec![Task { id: "task-1".into(), messages: history }],
        }),
        input: Some(batch(vec![query_input(latest)])),
        ..Default::default()
    }
}

// ---- Requests --------------------------------------------------------------

#[test]
fn mod_translate_request_emits_system_prompt_and_history() {
    let request = user_inputs_request(
        vec![user_msg("hi"), agent_msg("hello")],
        "what time is it?",
    );
    let req = translate_request(&request, &make_config()).expect("should translate");
    assert_eq!(req.model, "qwen2.5-coder:7b");
    assert_eq!(req.stream, Some(true));
    let roles: Vec<_> = req.messages.iter().map(|m| m.role.as_str()).collect();
    assert_eq!(roles, vec!["system", "user", "assistant", "user"]);
    assert_eq!(
        req.messages.last().unwrap().content.as_deref(),
        Some("what time is it?")
    );
    // Tools are now advertised so the model can call them.
    assert!(req.tools.is_some(), "tools should be advertised in local mode");
    let tools = req.tools.as_ref().unwrap();
    assert!(
        tools.iter().any(|t| t.function.name == "run_shell_command"),
        "run_shell_command should be in advertised tools"
    );
}

#[test]
fn translate_request_walks_prior_tool_call_into_assistant_tool_calls() {
    let prior_tool_call = Message {
        request_id: "req-prev".into(),
        ..message(
            "tc-1".into(),
            Some(MessageType::ToolCall(ToolCall {
                tool_call_id: "call_abc".into(),
                tool: Some(Tool::RunShellCommand(RunShellCommand { command: "ls".into() })),
            })),
        )
    };
    let request = user_inputs_request(vec![user_msg("hi"), prior_tool_call], "and now?");
    let req = translate_request(&request, &make_config()).expect("translate");
    let assistant_with_tool_calls = req
        .messages
        .iter()
        .find(|m| m.role == "assistant" && m.tool_calls.is_some())
        .expect("expected an assistant message with tool_calls");
    let calls = assistant_with_tool_calls.tool_calls.as_ref().unwrap();
    assert_eq!(calls.len(), 1);
    assert_eq!(calls[0].function.name, "run_shell_command");
    assert!(calls[0].function.arguments.contains("ls"));
}

#[test]
fn translate_request_routes_tool_call_result_input_to_tool_message() {
    let request = Request {
        task_context: Some(TaskContext {
            tasks: vec![Task { id: "task-1".into(), messages: vec![user_msg("hi")] }],
        }),
        input: Some(batch(vec![result_input("call_abc")])),
        ..Default::default()
    };
    let req = translate_request(&request, &make_config()).expect("translate");
    let tool_msg = req
        .messages
        .iter()
        .find(|m| m.role == "tool")
        .expect("expected a tool role message");
    assert_eq!(tool_msg.tool_call_id.as_deref(), Some("call_abc"));
    assert!(tool_msg.content.as_deref().unwrap().contains("Cargo.toml"));
}

#[test]
fn mod_translate_request_handles_deprecated_direct_user_query() {
    let request = Request {
        task_context: Some(TaskContext {
            tasks: vec![Task { id: "task-1".into(), ..Default::default() }],
        }),
        input: Some(Input {
            kind: Some(InputType::UserQuery(UserQuery { query: "deprecated path".into() })),
        }),
        ..Default::default()
    };
    let req = translate_request(&request, &make_config()).expect("should translate");
    assert_eq!(
        req.messages.last().unwrap().content.as_deref(),
        Some("deprecated path")
    );
}

#[test]
fn mod_translate_request_returns_none_with_no_input() {
    let request = Request::default();
    assert!(translate_request(&request, &make_config()).is_none());
}

#[test]
fn mod_pick_target_task_id_returns_last_task() {
    let request = Request {
        task_context: Some(TaskContext {
            tasks: vec![
                Task { id: "first".into(), ..Default::default() },
                Task { id: "last".into(), ..Default::default() },
            ],
        }),
        ..Default::default()
    };
    assert_eq!(pick_target_task_id(&request).as_deref(), Some("last"));
}

#[test]
fn mod_pick_target_task_id_returns_none_when_no_tasks() {
    let request = Request::default();
    assert!(pick_target_task_id(&request).is_none());
}

#[test]
fn history_leaves_out_what_says_nothing() {
    let request = Request {
        task_context: Some(TaskContext {
            tasks: vec![
                Task {
                    id: "a".into(),
                    messages: vec![
                        user_msg(""),
                        agent_msg(""),
                        message("x".into(), None),
                        message("y".into(), Some(MessageType::Other)),
                        message(
                            "z".into(),
                            Some(MessageType::ToolCallResult(ToolCallResult {
                                tool_call_id: "c".into(),
                                result: Some(ToolResult::Other),
                            })),
                        ),
                        message(
                            "w".into(),
                            Some(MessageType::ToolCallResult(ToolCallResult {
                                tool_call_id: "c".into(),
                                result: None,
                            })),
                        ),
                        message(
                            "t".into(),
                            Some(MessageType::ToolCall(ToolCall {
                                tool_call_id: "c".into(),
                                tool: Some(Tool::Other),
                            })),
                        ),
                        message(
                            "u".into(),
                            Some(MessageType::ToolCall(ToolCall {
                                tool_call_id: "c".into(),
                                tool: None,
                            })),
                        ),
                        agent_msg("one"),
                    ],
                },
                Task { id: "b".into(), messages: vec![user_msg("two")] },
            ],
        }),
        input: None,
        ..Default::default()
    };
    let req = translate_request(&request, &make_config()).unwrap();
    let said: Vec<_> = req.messages.iter().map(|m| m.content.as_deref().unwrap()).collect();
    assert_eq!(said, vec![SYSTEM_PROMPT, "one", "two"]);
}

fn shell_call(id: &str) -> MessageType {
    MessageType::ToolCall(ToolCall {
        tool_call_id: id.into(),
        tool: Some(Tool::RunShellCommand(RunShellCommand { command: "ls".into() })),
    })
}

#[test]
fn history_result_answers_its_call() {
    let request = Request {
        task_context: Some(TaskContext {
            tasks: vec![Task {
                id: "task-1".into(),
                messages: vec![
                    user_msg("list it"),
                    message("m1".into(), Some(shell_call("call_1"))),
                    message(
                        "m2".into(),
                        Some(MessageType::ToolCallResult(shell_result("call_1"))),
                    ),
                ],
            }],
        }),
        input: Some(Input {
            kind: Some(InputType::UserInputs(UserInputs {
                inputs: vec![UserInput {
                    input: Some(UserInputType::UserQuery(UserQuery { query: "next".into() })),
                }],
            })),
        }),
        ..Default::default()
    };
    let req = translate_request(&request, &make_config()).unwrap();
    let roles: Vec<_> = req.messages.iter().map(|m| m.role.as_str()).collect();
    assert_eq!(roles, vec!["system", "user", "assistant", "tool", "user"]);
    assert_eq!(req.messages[2].tool_calls.as_ref().unwrap()[0].id, "call_1");
    assert_eq!(req.messages[3].tool_call_id.as_deref(), Some("call_1"));
    assert!(req.messages[3].content.as_deref().unwrap().contains("Cargo.toml"));
    assert!(req.messages[3].tool_calls.is_none());
    assert_eq!(req.messages[4].content.as_deref(), Some("next"));
}

#[test]
fn history_result_alone_is_sent() {
    let request = Request {
        task_context: Some(TaskContext {
            tasks: vec![Task {
                id: "task-1".into(),
                messages: vec![
                    message("m1".into(), Some(shell_call("call_1"))),
                    message(
                        "m2".into(),
                        Some(MessageType::ToolCallResult(shell_result("call_1"))),
                    ),
                ],
            }],
        }),
        ..Default::default()
    };
    let req = translate_request(&request, &make_config()).unwrap();
    let roles: Vec<_> = req.messages.iter().map(|m| m.role.as_str()).collect();
    assert_eq!(roles, vec!["system", "assistant", "tool"]);
}

#[test]
fn prompt_names_the_tools() {
    assert_eq!(
        SYSTEM_PROMPT,
        "You are an assistant embedded in the Warp terminal, running on the user's machine via a \
         local model. Reply in plain text by default. You may call tools when they help: \
         run_shell_command, read_files, grep, file_glob, apply_file_diffs. Prefer one tool call \
         at a time and wait for the result before deciding the next step. Do not invent tools \
         that are not listed."
    );
}

#[test]
fn new_inputs_come_to_a_kind() {
    let kind = |input: Input| {
        let mut messages = vec![];
        let kind = append_new_inputs(&input, &mut messages);
        let roles: Vec<String> = messages.into_iter().map(|m| m.role).collect();
        (kind, roles)
    };
    let none: Vec<String> = vec![];
    assert_eq!(kind(Input { kind: None }), (InputKind::Nothing, none.clone()));
    assert_eq!(kind(Input { kind: Some(InputType::Other) }), (InputKind::Nothing, none.clone()));
    assert_eq!(kind(batch(vec![query_input("")])), (InputKind::Nothing, none.clone()));
    assert_eq!(
        kind(batch(vec![UserInput { input: None }, UserInput { input: Some(UserInputType::Other) }])),
        (InputKind::Nothing, none.clone())
    );
    assert_eq!(
        kind(batch(vec![result_input("a"), query_input("q"), result_input("b")])),
        (InputKind::UserQuery, vec!["tool".into(), "user".into(), "tool".into()])
    );
    assert_eq!(
        kind(batch(vec![result_input("a"), query_input("")])),
        (InputKind::ToolResult, vec!["tool".into()])
    );
    assert_eq!(
        kind(Input { kind: Some(InputType::ToolCallResult(shell_result("a"))) }),
        (InputKind::ToolResult, vec!["tool".into()])
    );
    assert_eq!(
        kind(Input {
            kind: Some(InputType::ToolCallResult(ToolCallResult {
                tool_call_id: "a".into(),
                result: None,
            }))
        }),
        (InputKind::Nothing, none.clone())
    );
    assert_eq!(
        kind(Input { kind: Some(InputType::UserQuery(UserQuery { query: "".into() })) }),
        (InputKind::Nothing, none)
    );
}

#[test]
fn only_the_latest_query_of_a_batch_is_asked() {
    let mut messages = vec![];
    let kind = append_new_inputs(&batch(vec![query_input("a"), query_input("b")]), &mut messages);
    assert_eq!(kind, InputKind::UserQuery);
    assert_eq!(messages.len(), 1);
    assert_eq!(messages[0].role, "user");
    assert_eq!(messages[0].content.as_deref(), Some("b"));
    assert!(messages[0].tool_call_id.is_none());
    assert!(messages[0].tool_calls.is_none());

    let mut messages = vec![];
    append_new_inputs(
        &batch(vec![
            query_input("a"),
            result_input("r1"),
            query_input("b"),
            result_input("r2"),
            query_input(""),
        ]),
        &mut messages,
    );
    let told: Vec<_> = messages
        .iter()
        .map(|m| (m.role.as_str(), m.tool_call_id.as_deref()))
        .collect();
    assert_eq!(told, vec![("tool", Some("r1")), ("user", None), ("tool", Some("r2"))]);
    assert_eq!(messages[1].content.as_deref(), Some("b"));
}

#[test]
fn nothing_from_the_user_is_not_sent() {
    let call = message(
        "t".into(),
        Some(MessageType::ToolCall(ToolCall {
            tool_call_id: "c".into(),
            tool: Some(Tool::RunShellCommand(RunShellCommand { command: "ls".into() })),
        })),
    );
    let mut request = user_inputs_request(vec![agent_msg("hello"), call], "");
    assert!(translate_request(&request, &make_config()).is_none());
    request.input = None;
    assert!(translate_request(&request, &make_config()).is_none());
    assert_eq!(
        dispatch_local(&request, &make_config()).err(),
        Some(DispatchError::NoUserInput)
    );
    request.input = Some(batch(vec![result_input("c")]));
    assert!(translate_request(&request, &make_config()).is_some());
}

// ---- Dispatch --------------------------------------------------------------

#[test]
fn dispatch_prepares_the_stream() {
    let mut request = user_inputs_request(vec![], "q");
    request.metadata = Some(Metadata { conversation_id: "conv".into() });
    let config = LocalEndpointConfig { api_key: Some("key".into()), ..make_config() };
    let stream = dispatch_local_with(&request, &config, "req".into(), "msg".into())
        .ok()
        .unwrap();
    assert_eq!(stream.url, "http://localhost:11434/v1/chat/completions");
    assert_eq!(stream.api_key.as_deref(), Some("key"));
    assert_eq!(stream.chat_request.messages.len(), 2);
    assert_eq!(stream.state.task_id, "task-1");
    assert_eq!(stream.state.request_id, "req");
    assert_eq!(stream.state.message_id, "msg");
    assert!(!stream.state.emitted_init);
    assert!(!stream.state.emitted_placeholder);
    assert!(!stream.state.finished);
    assert!(stream.state.pending_tool_calls.is_empty());
    assert_eq!(
        stream.state.pending_init,
        Some(ResponseEvent {
            kind: Some(EventType::Init(StreamInit {
                request_id: "req".into(),
                conversation_id: "conv".into(),
                run_id: "".into(),
            }))
        })
    );
}

fn is_fresh_id(id: &str) -> bool {
    uuid::Uuid::parse_str(id).map(|u| u.get_version_num()) == Ok(4)
        && id == id.to_lowercase()
        && id.len() == 36
}

#[test]
fn dispatch_mints_ids() {
    let stream = dispatch_local(&user_inputs_request(vec![], "q"), &make_config())
        .ok()
        .unwrap();
    assert!(is_fresh_id(&stream.state.request_id));
    assert!(is_fresh_id(&stream.state.message_id));
    assert_ne!(stream.state.request_id, stream.state.message_id);
}

#[test]
fn dispatch_refuses_a_request_without_input() {
    let error = dispatch_local(&Request::default(), &make_config()).err();
    assert_eq!(error, Some(DispatchError::NoUserInput));
    assert_eq!(
        DispatchError::NoUserInput.message(),
        "no user input found to send to local endpoint"
    );
}

#[test]
fn dispatch_refuses_a_request_without_task() {
    let request = Request { input: Some(batch(vec![query_input("q")])), ..Default::default() };
    let error = dispatch_local(&request, &make_config()).err();
    assert_eq!(error, Some(DispatchError::NoTask));
    assert_eq!(
        failure(&DispatchError::NoTask.event()).as_deref(),
        Some("local mode requires at least one task in task_context")
    );
}

#[test]
fn refusals_are_answered() {
    let request = Request {
        metadata: Some(Metadata { conversation_id: "conv".into() }),
        ..Default::default()
    };
    assert!(refusal_events(DispatchError::NoUserInput, &request, "req").is_none());
    assert!(answer_refusal(DispatchError::NoUserInput, &request).is_none());
    let answer = refusal_events(DispatchError::NoTask, &request, "req").unwrap();
    assert_eq!(answer.len(), 2);
    assert_eq!(
        answer[0].kind,
        Some(EventType::Init(StreamInit {
            request_id: "req".into(),
            conversation_id: "conv".into(),
            run_id: "".into(),
        }))
    );
    assert_eq!(
        failure(&answer[1]).as_deref(),
        Some("local mode requires at least one task in task_context")
    );
    let fresh = answer_refusal(DispatchError::NoTask, &request).unwrap();
    match &fresh[0].kind {
        Some(EventType::Init(init)) => assert!(is_fresh_id(&init.request_id)),
        _ => panic!("expected Init"),
    }
    assert_eq!(fresh[1], answer[1]);
}

// ---- Chunks ----------------------------------------------------------------

#[test]
fn parse_openai_stream_chunk_with_content() {
    let raw = r#"{"id":"x","choices":[{"index":0,"delta":{"role":"assistant","content":"Hi"},"finish_reason":null}]}"#;
    let chunk = OpenAiStreamChunk::from_json(raw).unwrap();
    assert_eq!(chunk.choices.len(), 1);
    assert_eq!(chunk.choices[0].delta.content.as_deref(), Some("Hi"));
    assert!(chunk.choices[0].finish_reason.is_none());
}

#[test]
fn parse_openai_stream_chunk_with_finish_reason() {
    let raw = r#"{"choices":[{"index":0,"delta":{},"finish_reason":"stop"}]}"#;
    let chunk = OpenAiStreamChunk::from_json(raw).unwrap();
    assert_eq!(chunk.choices[0].finish_reason.as_deref(), Some("stop"));
    assert!(chunk.choices[0].delta.content.is_none());
}

#[test]
fn parse_openai_stream_chunk_tolerates_unknown_fields() {
    let raw = r#"{"id":"x","object":"chat.completion.chunk","model":"m","system_fingerprint":"f","usage":{"prompt_tokens":1},"choices":[{"index":0,"delta":{"content":"!"},"finish_reason":null,"logprobs":null}]}"#;
    let chunk = OpenAiStreamChunk::from_json(raw).unwrap();
    assert_eq!(chunk.choices[0].delta.content.as_deref(), Some("!"));
}

#[test]
fn parse_openai_stream_chunk_empty_choices() {
    let raw = r#"{"id":"x","choices":[]}"#;
    let chunk = OpenAiStreamChunk::from_json(raw).unwrap();
    assert!(chunk.choices.is_empty());
}

#[test]
fn chunk_fields_have_defaults() {
    assert!(OpenAiStreamChunk::from_json("{}").unwrap().choices.is_empty());
    let chunk = OpenAiStreamChunk::from_json(r#"{"choices":[{}]}"#).unwrap();
    assert_eq!(
        chunk.choices[0],
        OpenAiStreamChoice {
            delta: OpenAiStreamDelta { content: None, tool_calls: None },
            finish_reason: None,
        }
    );
    let chunk =
        OpenAiStreamChunk::from_json(r#"{"choices":[{"delta":{"tool_calls":[{}]}}]}"#).unwrap();
    assert_eq!(
        chunk.choices[0].delta.tool_calls,
        Some(vec![OpenAiStreamToolCallDelta { index: 0, id: None, function: None }])
    );
}

#[test]
fn chunk_with_tool_call_pieces() {
    let chunk = OpenAiStreamChunk::from_json(
        r#"{"choices":[{"delta":{"tool_calls":[
            {"index": 3, "id": "c", "type": "function", "function": {"name": "grep", "arguments": "{\"q"}},
            {"index": 4, "function": null},
            {"function": {"arguments": null}}
        ]}}]}"#,
    )
    .unwrap();
    assert_eq!(
        chunk.choices[0].delta.tool_calls,
        Some(vec![
            OpenAiStreamToolCallDelta {
                index: 3,
                id: Some("c".into()),
                function: Some(OpenAiStreamFunctionDelta {
                    name: Some("grep".into()),
                    arguments: Some("{\"q".into()),
                }),
            },
            OpenAiStreamToolCallDelta { index: 4, id: None, function: None },
            OpenAiStreamToolCallDelta {
                index: 0,
                id: None,
                function: Some(OpenAiStreamFunctionDelta { name: None, arguments: None }),
            },
        ])
    );
}

#[test]
fn chunks_of_another_shape_are_refused() {
    for raw in [
        "",
        "null",
        "[DONE]",
        "3",
        r#"{"choices":null}"#,
        r#"{"choices":{}}"#,
        r#"{"choices":[null]}"#,
        r#"{"choices":[{"delta":null}]}"#,
        r#"{"choices":[{"delta":{"content":1}}]}"#,
        r#"{"choices":[{"delta":{"tool_calls":[{"index":-1}]}}]}"#,
        r#"{"choices":[{"delta":{"tool_calls":[{"index":null}]}}]}"#,
        r#"{"choices":[{"delta":{"tool_calls":[{"index":1.0}]}}]}"#,
        r#"{"choices":[{"delta":{"tool_calls":[{"index":1e2}]}}]}"#,
        r#"{"choices":[{"delta":{"tool_calls":[{"index":-0}]}}]}"#,
        r#"{"choices":[],"choices":[]}"#,
        r#"{"choices":[]"#,
    ] {
        assert!(OpenAiStreamChunk::from_json(raw).is_none(), "{}", raw);
    }
}

/// A state whose reply has not begun.
fn fake_streaming_state() -> StreamingState {
    StreamingState {
        task_id: "task-1".into(),
        request_id: "req-1".into(),
        message_id: "msg-1".into(),
        emitted_init: false,
        emitted_placeholder: false,
        finished: false,
        pending_init: Some(ResponseEvent {
            kind: Some(EventType::Init(StreamInit {
                request_id: "req-1".into(),
                conversation_id: "conv".into(),
                run_id: String::new(),
            })),
        }),
        pending_tool_calls: BTreeMap::new(),
    }
}

fn chunk(content: Option<&str>, finish: Option<&str>) -> OpenAiStreamChunk {
    OpenAiStreamChunk {
        choices: vec![OpenAiStreamChoice {
            delta: OpenAiStreamDelta { content: content.map(String::from), tool_calls: None },
            finish_reason: finish.map(String::from),
        }],
    }
}

fn action(event: &ResponseEvent) -> &Action {
    match &event.kind {
        Some(EventType::ClientActions(a)) => {
            assert_eq!(a.actions.len(), 1);
            a.actions[0].action.as_ref().unwrap()
        }
        _ => panic!("expected ClientActions"),
    }
}

fn finish(event: &ResponseEvent) -> Option<FinishReason> {
    match &event.kind {
        Some(EventType::Finished(StreamFinished { reason, should_refresh_model_config })) => {
            assert!(!should_refresh_model_config);
            reason.clone()
        }
        _ => None,
    }
}

fn failure(event: &ResponseEvent) -> Option<String> {
    match finish(event) {
        Some(FinishReason::InternalError(e)) => Some(e.message),
        _ => None,
    }
}

fn appended(event: &ResponseEvent) -> Option<String> {
    match &event.kind {
        Some(EventType::ClientActions(_)) => match action(event) {
            Action::AppendToMessageContent(a) => {
                assert_eq!(a.task_id, "task-1");
                assert_eq!(
                    a.mask.as_ref().unwrap().paths,
                    vec!["message.agent_output.text".to_string()]
                );
                let m = a.message.as_ref().unwrap();
                assert_eq!(m.id, "msg-1");
                assert_eq!(m.timestamp, None);
                match &m.message {
                    Some(MessageType::AgentOutput(out)) => Some(out.text.clone()),
                    _ => panic!("expected agent output"),
                }
            }
            _ => None,
        },
        _ => None,
    }
}

#[test]
fn process_chunk_emits_init_then_placeholder_then_append() {
    let mut state = fake_streaming_state();
    let mut events = vec![];
    state.process_chunk(chunk(Some("Hello"), None), &mut events);
    assert_eq!(events.len(), 3, "init + placeholder + append");
    assert!(matches!(events[0].kind, Some(EventType::Init(_))));
    // Second event is the placeholder AddMessagesToTask.
    let actions = match &events[1].kind {
        Some(EventType::ClientActions(a)) => &a.actions,
        _ => panic!("expected ClientActions"),
    };
    assert!(matches!(actions[0].action, Some(Action::AddMessagesToTask(_))));
    // Third event is the AppendToMessageContent with our delta text.
    let actions = match &events[2].kind {
        Some(EventType::ClientActions(a)) => &a.actions,
        _ => panic!("expected ClientActions"),
    };
    match &actions[0].action {
        Some(Action::AppendToMessageContent(a)) => {
            let mask = a.mask.as_ref().unwrap();
            assert_eq!(mask.paths, vec!["message.agent_output.text".to_string()]);
            let msg = a.message.as_ref().unwrap();
            match &msg.message {
                Some(MessageType::AgentOutput(out)) => {
                    assert_eq!(out.text, "Hello");
                }
                _ => panic!("expected agent output"),
            }
        }
        _ => panic!("expected AppendToMessageContent"),
    }
}

#[test]
fn process_chunk_subsequent_deltas_skip_init_and_placeholder() {
    let mut state = fake_streaming_state();
    // First chunk: emits init + placeholder + append
    state.process_chunk(chunk(Some("Hi"), None), &mut vec![]);
    // Second chunk: just the append delta.
    let mut events = vec![];
    state.process_chunk(chunk(Some(" there"), None), &mut events);
    assert_eq!(events.len(), 1, "only the append delta on subsequent chunk");
}

#[test]
fn process_chunk_finish_reason_emits_done() {
    let mut state = fake_streaming_state();
    let mut events = vec![];
    state.process_chunk(chunk(None, Some("stop")), &mut events);
    // Init + empty placeholder + StreamFinished(Done) — even with no
    // content, we keep the placeholder so the assistant turn renders.
    assert_eq!(events.len(), 3);
    assert!(matches!(
        events.last().unwrap().kind,
        Some(EventType::Finished(StreamFinished { reason: Some(FinishReason::Done), .. }))
    ));
    assert!(state.finished);
}

#[test]
fn process_chunk_finish_reason_length_emits_max_token_limit() {
    let mut state = fake_streaming_state();
    let mut events = vec![];
    state.process_chunk(chunk(None, Some("length")), &mut events);
    assert!(matches!(
        events.last().unwrap().kind,
        Some(EventType::Finished(StreamFinished {
            reason: Some(FinishReason::MaxTokenLimit),
            ..
        }))
    ));
}

fn tool_call_delta_chunk(
    index: usize,
    id: Option<&str>,
    name: Option<&str>,
    args_fragment: Option<&str>,
    finish_reason: Option<&str>,
) -> OpenAiStreamChunk {
    OpenAiStreamChunk {
        choices: vec![OpenAiStreamChoice {
            delta: OpenAiStreamDelta {
                content: None,
                tool_calls: Some(vec![OpenAiStreamToolCallDelta {
                    index,
                    id: id.map(String::from),
                    function: Some(OpenAiStreamFunctionDelta {
                        name: name.map(String::from),
                        arguments: args_fragment.map(String::from),
                    }),
                }]),
            },
            finish_reason: finish_reason.map(String::from),
        }],
    }
}

#[test]
fn streaming_tool_call_assembles_across_chunks() {
    let mut state = fake_streaming_state();
    let mut events = vec![];
    state.process_chunk(
        tool_call_delta_chunk(0, Some("call_42"), Some("run_shell_command"), Some(""), None),
        &mut events,
    );
    state.process_chunk(
        tool_call_delta_chunk(0, None, None, Some(r#"{"comm"#), None),
        &mut events,
    );
    state.process_chunk(
        tool_call_delta_chunk(0, None, None, Some(r#"and":"ls"}"#), None),
        &mut events,
    );
    // Mid-stream: nothing emitted yet (we wait for finish_reason).
    assert!(events.is_empty());
    state.process_chunk(chunk(None, Some("tool_calls")), &mut events);
    // Init + AddMessagesToTask + StreamFinished.
    assert_eq!(events.len(), 3);
    let actions = match &events[1].kind {
        Some(EventType::ClientActions(a)) => &a.actions,
        _ => panic!("expected ClientActions"),
    };
    match &actions[0].action {
        Some(Action::AddMessagesToTask(amt)) => {
            let msg = &amt.messages[0];
            match &msg.message {
                Some(MessageType::ToolCall(tc)) => {
                    assert_eq!(tc.tool_call_id, "call_42");
                    match tc.tool.as_ref().unwrap() {
                        Tool::RunShellCommand(c) => {
                            assert_eq!(c.command, "ls");
                        }
                        _ => panic!("expected RunShellCommand"),
                    }
                }
                _ => panic!("expected ToolCall message"),
            }
        }
        _ => panic!("expected AddMessagesToTask"),
    }
}

#[test]
fn streaming_tool_call_with_unknown_name_falls_back_to_text() {
    let mut state = fake_streaming_state();
    let mut events = vec![];
    state.process_chunk(
        tool_call_delta_chunk(0, Some("call_x"), Some("nonexistent_tool"), Some("{}"), None),
        &mut events,
    );
    state.process_chunk(chunk(None, Some("tool_calls")), &mut events);
    // The unknown tool surfaces as an inline assistant text note.
    let has_error_text = events
        .iter()
        .any(|e| appended(e).map_or(false, |text| text.contains("nonexistent_tool")));
    assert!(has_error_text, "unknown tool name should surface as inline error text");
}

// ---- Exact events ----------------------------------------------------------

fn stamps(n: usize) -> Stamps {
    Stamps {
        placeholder_time: Timestamp { seconds: 7, nanos: 8 },
        calls: (0..n)
            .map(|i| CallStamp {
                call_id: format!("fresh-{i}"),
                message_id: format!("m-{i}"),
                time: Timestamp { seconds: 100 + i as i64, nanos: 0 },
            })
            .collect(),
    }
}

#[test]
fn placeholder_is_stamped() {
    let mut state = fake_streaming_state();
    let mut events = vec![];
    state.process_chunk_with(&chunk(Some("x"), None), &stamps(0), &mut events);
    match action(&events[1]) {
        Action::AddMessagesToTask(a) => {
            assert_eq!(a.task_id, "task-1");
            assert_eq!(
                a.messages,
                vec![Message {
                    id: "msg-1".into(),
                    task_id: "task-1".into(),
                    request_id: "req-1".into(),
                    server_message_data: "".into(),
                    citations: vec![],
                    timestamp: Some(Timestamp { seconds: 7, nanos: 8 }),
                    message: Some(MessageType::AgentOutput(AgentOutput { text: "".into() })),
                }]
            );
        }
        _ => panic!("expected AddMessagesToTask"),
    }
    assert_eq!(appended(&events[2]).as_deref(), Some("x"));
}

#[test]
fn calls_are_made_in_the_order_of_their_indices() {
    let mut state = fake_streaming_state();
    let mut events = vec![];
    let empty = stamps(0);
    for c in [
        tool_call_delta_chunk(5, None, Some("grep"), Some(r#"{"queries":"#), None),
        tool_call_delta_chunk(2, Some("two"), Some("run_shell_command"), None, None),
        tool_call_delta_chunk(5, Some(""), Some(""), Some(r#"["q"]}"#), None),
        tool_call_delta_chunk(2, None, None, Some(r#"{"command":"c"}"#), None),
        tool_call_delta_chunk(9, Some("nine"), Some("bad"), Some("  "), None),
        tool_call_delta_chunk(1, Some("one"), None, Some("{}"), None),
    ] {
        state.process_chunk_with(&c, &empty, &mut events);
    }
    assert!(events.is_empty());
    state.process_chunk_with(&chunk(None, Some("stop")), &stamps(4), &mut events);
    assert_eq!(events.len(), 5);
    assert!(matches!(events[0].kind, Some(EventType::Init(_))));
    match action(&events[1]) {
        Action::AddMessagesToTask(a) => {
            assert_eq!(a.messages.len(), 2);
            assert_eq!(a.messages[0].id, "m-1");
            assert_eq!(a.messages[0].timestamp, Some(Timestamp { seconds: 101, nanos: 0 }));
            assert_eq!(
                a.messages[0].message,
                Some(MessageType::ToolCall(ToolCall {
                    tool_call_id: "two".into(),
                    tool: Some(Tool::RunShellCommand(RunShellCommand { command: "c".into() })),
                }))
            );
            assert_eq!(a.messages[1].id, "m-2");
            match &a.messages[1].message {
                Some(MessageType::ToolCall(c)) => assert_eq!(c.tool_call_id, "fresh-2"),
                _ => panic!("expected ToolCall message"),
            }
        }
        _ => panic!("expected AddMessagesToTask"),
    }
    assert!(matches!(action(&events[2]), Action::AddMessagesToTask(_)));
    assert_eq!(
        appended(&events[3]).as_deref(),
        Some(
            "(model emitted a tool call with no function name)\n\
             (model called unknown or malformed tool `bad` with args: {})"
        )
    );
    assert_eq!(finish(&events[4]), Some(FinishReason::Done));
    assert!(state.pending_tool_calls.is_empty());
}

#[test]
fn notes_show_a_part_of_the_arguments() {
    let mut state = fake_streaming_state();
    let mut events = vec![];
    let args = format!("{}\u{e9}\u{e9}", "a".repeat(199));
    state.process_chunk(
        tool_call_delta_chunk(0, None, Some("grep"), Some(&args), Some("tool_calls")),
        &mut events,
    );
    let note = format!(
        "(model called unknown or malformed tool `grep` with args: {})",
        "a".repeat(199)
    );
    assert_eq!(appended(&events[2]), Some(note));
}

#[test]
fn call_without_id_gets_a_fresh_one() {
    let mut state = fake_streaming_state();
    let mut events = vec![];
    state.process_chunk(
        tool_call_delta_chunk(
            0,
            None,
            Some("run_shell_command"),
            Some(r#"{"command":"ls"}"#),
            Some("tool_calls"),
        ),
        &mut events,
    );
    match action(&events[1]) {
        Action::AddMessagesToTask(a) => {
            assert!(is_fresh_id(&a.messages[0].id));
            let nanos = a.messages[0].timestamp.unwrap().nanos;
            assert!(0 <= nanos && nanos < 1_000_000_000);
            assert!(a.messages[0].timestamp.unwrap().seconds > 0);
            match &a.messages[0].message {
                Some(MessageType::ToolCall(c)) => assert!(is_fresh_id(&c.tool_call_id)),
                _ => panic!("expected ToolCall message"),
            }
        }
        _ => panic!("expected AddMessagesToTask"),
    }
}

#[test]
fn tool_calls_reason_without_calls_only_ends() {
    let mut state = fake_streaming_state();
    let mut events = vec![];
    state.process_chunk(chunk(None, Some("tool_calls")), &mut events);
    assert_eq!(events.len(), 2);
    assert_eq!(finish(&events[1]), Some(FinishReason::Done));
    assert!(!state.emitted_placeholder);
}

#[test]
fn only_the_first_choice_counts() {
    let mut state = fake_streaming_state();
    let mut events = vec![];
    let mut both = chunk(Some("first"), None);
    both.choices.push(chunk(Some("second"), Some("stop")).choices.remove(0));
    state.process_chunk(both, &mut events);
    assert_eq!(events.len(), 3);
    assert_eq!(appended(&events[2]).as_deref(), Some("first"));
    assert!(!state.finished);
    state.process_chunk(OpenAiStreamChunk { choices: vec![] }, &mut events);
    assert_eq!(events.len(), 3);
}

// ---- Frames ----------------------------------------------------------------

#[test]
fn chunk_ends_the_reply_once() {
    for finished in [false, true] {
        for reason in [None, Some("stop"), Some("length"), Some("tool_calls")] {
            let mut state = fake_streaming_state();
            state.finished = finished;
            let mut events = vec![];
            state.process_chunk(chunk(Some("text"), reason), &mut events);
            assert_eq!(state.finished, finished || reason.is_some());
            let ends: Vec<usize> =
                (0..events.len()).filter(|i| finish(&events[*i]).is_some()).collect();
            if !finished && reason.is_some() {
                assert_eq!(ends, vec![events.len() - 1]);
            } else {
                assert_eq!(ends, Vec::<usize>::new());
            }
        }
    }
    let mut state = fake_streaming_state();
    let mut events = vec![];
    state.process_chunk(OpenAiStreamChunk { choices: vec![] }, &mut events);
    assert!(events.is_empty());
    assert!(!state.finished && !state.emitted_init);
}

fn text_frame(text: &str) -> StreamFrame {
    StreamFrame::Message(format!(" {{\"choices\":[{{\"delta\":{{\"content\":\"{text}\"}}}}]}}\n"))
}

#[test]
fn frames_of_a_plain_reply() {
    let mut state = fake_streaming_state();
    let mut events = vec![];
    for frame in [
        StreamFrame::Open,
        text_frame("a"),
        StreamFrame::Message("garbage".into()),
        StreamFrame::Message("".into()),
        text_frame("b"),
        StreamFrame::Message(" [DONE] ".into()),
    ] {
        assert!(!state.finished);
        events.extend(state.next_events(frame));
    }
    assert!(state.finished);
    assert_eq!(events.len(), 5);
    assert!(matches!(events[0].kind, Some(EventType::Init(_))));
    let text: String = events.iter().filter_map(appended).collect();
    assert_eq!(text, "ab");
    assert_eq!(finish(&events[4]), Some(FinishReason::Done));
}

#[test]
fn end_of_stream_ends_the_reply() {
    let mut state = fake_streaming_state();
    let events = state.next_events(StreamFrame::Eof);
    assert_eq!(events.len(), 2);
    assert!(matches!(events[0].kind, Some(EventType::Init(_))));
    assert_eq!(finish(&events[1]), Some(FinishReason::Done));
    assert!(state.finished);
    assert!(state.next_events(StreamFrame::Eof).is_empty());
}

#[test]
fn error_ends_the_reply() {
    let mut state = fake_streaming_state();
    let events = state.next_events(StreamFrame::Error("boom".into()));
    assert_eq!(events.len(), 2);
    assert_eq!(failure(&events[1]).as_deref(), Some("local endpoint stream error: boom"));
    assert!(state.finished);
}

#[test]
fn frames_with_given_stamps() {
    let mut state = fake_streaming_state();
    let events = state.next_events_with(&text_frame("x"), &stamps(0));
    assert_eq!(events.len(), 3);
    match action(&events[1]) {
        Action::AddMessagesToTask(a) => {
            assert_eq!(a.messages[0].timestamp, Some(Timestamp { seconds: 7, nanos: 8 }))
        }
        _ => panic!("expected AddMessagesToTask"),
    }
}

#[test]
fn large_indices_are_read() {
    let chunk = OpenAiStreamChunk::from_json(
        r#"{"choices":[{"delta":{"tool_calls":[{"index":4294967295},{"index":18446744073709551616}]}}]}"#,
    );
    assert!(chunk.is_none());
    let chunk = OpenAiStreamChunk::from_json(
        r#" { "choices" : [ { "delta" : { "tool_calls" : [ { "index" : 4294967295 } ] } } ] } "#,
    )
    .unwrap();
    assert_eq!(chunk.choices[0].delta.tool_calls.as_ref().unwrap()[0].index, 4294967295);
}

#[test]
fn frame_data_comes_to_a_meaning() {
    assert_eq!(read_data("\t[DONE]\r\n"), FrameData::Done);
    assert_eq!(read_data("[DONE"), FrameData::Malformed);
    assert_eq!(
        read_data(" {} "),
        FrameData::Chunk(OpenAiStreamChunk { choices: vec![] })
    );
}

#[test]
fn made_calls_return_to_the_model() {
    let mut state = fake_streaming_state();
    let events = state.next_events(StreamFrame::Message(
        r#"{"choices":[{"delta":{"tool_calls":[{"index":0,"id":"call_7","function":{"name":"grep","arguments":"{\"queries\":[\"x\"]}"}}]},"finish_reason":"tool_calls"}]}"#
            .into(),
    ));
    let made = match action(&events[1]) {
        Action::AddMessagesToTask(a) => a.messages.clone(),
        _ => panic!("expected AddMessagesToTask"),
    };
    let request = Request {
        task_context: Some(TaskContext {
            tasks: vec![Task { id: "task-1".into(), messages: made }],
        }),
        input: Some(batch(vec![result_input("call_7")])),
        ..Default::default()
    };
    let req = translate_request(&request, &make_config()).unwrap();
    assert_eq!(req.messages.len(), 3);
    let call = &req.messages[1].tool_calls.as_ref().unwrap()[0];
    assert_eq!(req.messages[1].role, "assistant");
    assert_eq!(req.messages[1].content, None);
    assert_eq!(call.id, "call_7");
    assert_eq!(call.function.name, "grep");
    assert_eq!(call.function.arguments, r#"{"path":"","queries":["x"]}"#);
    assert_eq!(req.messages[2].role, "tool");
    assert_eq!(req.messages[2].tool_call_id.as_deref(), Some("call_7"));
    assert_eq!(
        req.messages[2].content.as_deref(),
        Some("command: ls\nexit_code: 0\noutput:\nCargo.toml\n")
    );
}

#[test]
fn batches_of_pieces_make_no_difference() {
    let piece = |index: usize, name: Option<&str>, args: &str| {
        tool_call_delta_chunk(index, None, name, Some(args), None)
            .choices
            .remove(0)
            .delta
            .tool_calls
            .unwrap()
            .remove(0)
    };
    let pieces = vec![
        piece(1, Some("grep"), "a"),
        piece(0, Some("file_glob"), "b"),
        piece(1, None, "c"),
    ];
    let mut at_once = fake_streaming_state();
    at_once.absorb_tool_call_deltas(&pieces);
    let mut one_by_one = fake_streaming_state();
    for p in &pieces {
        one_by_one.absorb_tool_call_deltas(&vec![p.clone()]);
    }
    assert_eq!(at_once.pending_tool_calls, one_by_one.pending_tool_calls);
    assert_eq!(at_once.pending_tool_calls[&1].arguments, "ac");
    assert_eq!(at_once.pending_tool_calls[&0].name, "file_glob");
}
