use local_agent::agent::Action;
use local_agent::agent::AgentOutput;
use local_agent::agent::EventType;
use local_agent::agent::FinishReason;
use local_agent::agent::Input;
use local_agent::agent::InputType;
use local_agent::agent::Message;
use local_agent::agent::MessageType;
use local_agent::agent::Metadata;
use local_agent::agent::Request;
use local_agent::agent::ResponseEvent;
use local_agent::agent::Task;
use local_agent::agent::TaskContext;
use local_agent::agent::Timestamp;
use local_agent::agent::ToolCall;
use local_agent::agent::UserInput;
use local_agent::agent::UserInputType;
use local_agent::agent::UserInputs;
use local_agent::agent::UserQuery;
use local_agent::buffered_dispatch::build_agent_output_message;
use local_agent::buffered_dispatch::dispatch_local;
use local_agent::buffered_dispatch::dispatch_local_with;
use local_agent::buffered_dispatch::extract_latest_user_query;
use local_agent::buffered_dispatch::read_response;
use local_agent::buffered_dispatch::reply_events;
use local_agent::buffered_dispatch::reply_events_with;
use local_agent::buffered_dispatch::translate_request;
use local_agent::buffered_dispatch::EndpointResponse;
use local_agent::buffered_dispatch::ExchangeOutcome;
use local_agent::buffered_dispatch::LocalExchange;
use local_agent::events::pick_target_task_id;
use local_agent::events::DispatchError;
use local_agent::local_provider::LocalEndpointConfig;
use local_agent::replies::OpenAiChatResponse;

fn make_config() -> LocalEndpointConfig {
    LocalEndpointConfig {
        base_url: "http://localhost:11434/v1".into(),
        model: "qwen2.5-coder:7b".into(),
        api_key: None,
    }
}

fn message(id: String, payload: MessageType) -> Message {
    Message {
        id,
        task_id: "task-1".into(),
        request_id: "req-1".into(),
        server_message_data: String::new(),
        citations: vec![],
        timestamp: None,
        message: Some(payload),
    }
}

fn user_msg(text: &str) -> Message {
    message(
        format!("user-{text}"),
        MessageType::UserQuery(UserQuery { query: text.into() }),
    )
}

fn agent_msg(text: &str) -> Message {
    message(
        format!("agent-{text}"),
        MessageType::AgentOutput(AgentOutput { text: text.into() }),
    )
}

fn query_input(text: &str) -> UserInput {
    UserInput {
        input: Some(UserInputType::UserQuery(UserQuery { query: text.into() })),
    }
}

fn batch_request(history: Vec<Message>, inputs: Vec<UserInput>) -> Request {
    Request {
        task_context: Some(TaskContext {
            tasks: vec![Task { id: "task-1".into(), messages: history }],
        }),
        input: Some(Input {
            kind: Some(InputType::UserInputs(UserInputs { inputs })),
        }),
        metadata: Some(Metadata { conversation_id: "conv".into() }),
    }
}

fn user_inputs_request(history: Vec<Message>, latest: &str) -> Request {
    batch_request(history, vec![query_input(latest)])
}

#[test]
fn local_dispatch_translate_request_emits_system_prompt_and_history() {
    let request = user_inputs_request(
        vec![user_msg("hi"), agent_msg("hello")],
        "what time is it?",
    );
    let req = translate_request(&request, &make_config()).expect("should translate");
    assert_eq!(req.model, "qwen2.5-coder:7b");
    assert_eq!(req.stream, Some(false));
    let roles: Vec<_> = req.messages.iter().map(|m| m.role.as_str()).collect();
    assert_eq!(roles, vec!["system", "user", "assistant", "user"]);
    assert_eq!(
        req.messages.last().unwrap().content.as_deref(),
        Some("what time is it?")
    );
}

#[test]
fn local_dispatch_translate_request_handles_deprecated_direct_user_query() {
    let request = Request {
        task_context: Some(TaskContext {
            tasks: vec![Task { id: "task-1".into(), ..Default::default() }],
        }),
        input: Some(Input {
            kind: Some(InputType::UserQuery(UserQuery { query: "deprecated path".into() })),
        }),
        ..Default::default()
    };
    let req = translate_request(&request, &make_config()).expect("should translate");
    assert_eq!(
        req.messages.last().unwrap().content.as_deref(),
        Some("deprecated path")
    );
}

#[test]
fn local_dispatch_translate_request_returns_none_with_no_input() {
    let request = Request::default();
    assert!(translate_request(&request, &make_config()).is_none());
}

#[test]
fn local_dispatch_pick_target_task_id_returns_last_task() {
    let request = Request {
        task_context: Some(TaskContext {
            tasks: vec![
                Task { id: "first".into(), ..Default::default() },
                Task { id: "last".into(), ..Default::default() },
            ],
        }),
        ..Default::default()
    };
    assert_eq!(pick_target_task_id(&request).as_deref(), Some("last"));
}

#[test]
fn local_dispatch_pick_target_task_id_returns_none_when_no_tasks() {
    let request = Request::default();
    assert!(pick_target_task_id(&request).is_none());
}

#[test]
fn build_agent_output_message_carries_text() {
    let m = build_agent_output_message("hello world".into(), "t".into(), "r".into());
    assert_eq!(m.task_id, "t");
    assert_eq!(m.request_id, "r");
    assert!(m.timestamp.is_some());
    match m.message {
        Some(MessageType::AgentOutput(out)) => assert_eq!(out.text, "hello world"),
        _ => panic!("expected agent output"),
    }
}

#[test]
fn agent_output_messages_have_ids_of_their_own() {
    let a = build_agent_output_message("x".into(), "t".into(), "r".into());
    let b = build_agent_output_message("x".into(), "t".into(), "r".into());
    assert_eq!(a.id.len(), 36);
    assert_ne!(a.id, b.id);
}

// ---- Requests --------------------------------------------------------------

#[test]
fn prompt_of_a_buffered_request() {
    let req = translate_request(&user_inputs_request(vec![], "q"), &make_config()).unwrap();
    assert_eq!(
        req.messages[0].content.as_deref(),
        Some(
            "You are an assistant embedded in the Warp terminal. Reply in plain text. \
             Tool-use is not currently supported in local mode."
        )
    );
    assert!(req.tools.is_none());
}

#[test]
fn last_query_of_a_batch_counts() {
    let request = batch_request(
        vec![],
        vec![
            query_input("one"),
            query_input("two"),
            UserInput { input: None },
            UserInput { input: Some(UserInputType::Other) },
        ],
    );
    assert_eq!(extract_latest_user_query(&request).as_deref(), Some("two"));
    let req = translate_request(&request, &make_config()).unwrap();
    assert_eq!(req.messages.len(), 2);
    assert_eq!(extract_latest_user_query(&batch_request(vec![], vec![])), None);
    assert_eq!(extract_latest_user_query(&Request::default()), None);
}

#[test]
fn empty_query_adds_nothing() {
    let request = batch_request(vec![], vec![query_input("one"), query_input("")]);
    assert_eq!(extract_latest_user_query(&request).as_deref(), Some(""));
    assert!(translate_request(&request, &make_config()).is_none());
}

#[test]
fn tool_calls_are_left_out_of_a_buffered_request() {
    let call = message(
        "c".into(),
        MessageType::ToolCall(ToolCall { tool_call_id: "c".into(), tool: None }),
    );
    let req = translate_request(&user_inputs_request(vec![call], "q"), &make_config()).unwrap();
    assert_eq!(req.messages.len(), 2);
}

#[test]
fn agent_alone_is_not_sent() {
    let mut request = user_inputs_request(vec![agent_msg("hello")], "");
    assert!(translate_request(&request, &make_config()).is_none());
    request.input = None;
    assert!(translate_request(&request, &make_config()).is_none());
    let asked = user_inputs_request(vec![user_msg("hi"), agent_msg("hello")], "");
    assert!(translate_request(&asked, &make_config()).is_some());
}

// ---- Dispatch --------------------------------------------------------------

fn exchange() -> LocalExchange {
    let config = LocalEndpointConfig { api_key: Some("key".into()), ..make_config() };
    dispatch_local_with(&user_inputs_request(vec![], "q"), &config, "req".into())
        .ok()
        .unwrap()
}

#[test]
fn buffered_dispatch_prepares_the_exchange() {
    let e = exchange();
    assert_eq!(e.url, "http://localhost:11434/v1/chat/completions");
    assert_eq!(e.api_key.as_deref(), Some("key"));
    assert_eq!(e.task_id, "task-1");
    assert_eq!(e.request_id, "req");
    match &e.init.kind {
        Some(EventType::Init(i)) => {
            assert_eq!(i.request_id, "req");
            assert_eq!(i.conversation_id, "conv");
            assert_eq!(i.run_id, "");
        }
        _ => panic!("expected Init"),
    }
    let fresh = dispatch_local(&user_inputs_request(vec![], "q"), &make_config()).ok().unwrap();
    assert_eq!(fresh.request_id.len(), 36);
    assert_eq!(fresh.api_key, None);
}

#[test]
fn buffered_dispatch_refusals() {
    assert_eq!(
        dispatch_local(&Request::default(), &make_config()).err(),
        Some(DispatchError::NoUserInput)
    );
    let mut request = user_inputs_request(vec![], "q");
    request.task_context = Some(TaskContext { tasks: vec![] });
    assert_eq!(
        dispatch_local(&request, &make_config()).err(),
        Some(DispatchError::NoTask)
    );
    assert_eq!(
        DispatchError::NoTask.message(),
        "local mode requires at least one task in task_context"
    );
}

// ---- Replies ---------------------------------------------------------------

fn response(success: bool, status: &str, body: &str) -> EndpointResponse {
    EndpointResponse {
        success,
        status: status.into(),
        body: body.into(),
        decode_error: "EOF".into(),
    }
}

fn events(outcome: ExchangeOutcome) -> Vec<ResponseEvent> {
    reply_events_with(
        exchange(),
        &outcome,
        "msg".into(),
        Timestamp { seconds: 1, nanos: 2 },
    )
}

fn finish(event: &ResponseEvent) -> FinishReason {
    match &event.kind {
        Some(EventType::Finished(f)) => f.reason.clone().unwrap(),
        _ => panic!("expected Finished"),
    }
}

fn failure(outcome: ExchangeOutcome) -> String {
    let events = events(outcome);
    assert_eq!(events.len(), 2);
    assert!(matches!(events[0].kind, Some(EventType::Init(_))));
    match finish(&events[1]) {
        FinishReason::InternalError(e) => e.message,
        _ => panic!("expected InternalError"),
    }
}

#[test]
fn whole_reply_becomes_one_message() {
    let body = r#"{"choices":[{"message":{"role":"assistant","content":"hi"}},{"message":{"content":"no"}}]}"#;
    let events = events(ExchangeOutcome::Response(response(true, "200 OK", body)));
    assert_eq!(events.len(), 3);
    assert_eq!(events[0], exchange().init);
    match &events[1].kind {
        Some(EventType::ClientActions(a)) => match &a.actions[0].action {
            Some(Action::AddMessagesToTask(add)) => {
                assert_eq!(add.task_id, "task-1");
                assert_eq!(
                    add.messages,
                    vec![Message {
                        id: "msg".into(),
                        task_id: "task-1".into(),
                        request_id: "req".into(),
                        server_message_data: "".into(),
                        citations: vec![],
                        timestamp: Some(Timestamp { seconds: 1, nanos: 2 }),
                        message: Some(MessageType::AgentOutput(AgentOutput {
                            text: "hi".into()
                        })),
                    }]
                );
            }
            _ => panic!("expected AddMessagesToTask"),
        },
        _ => panic!("expected ClientActions"),
    }
    assert_eq!(finish(&events[2]), FinishReason::Done);
}

#[test]
fn reply_goes_by_a_fresh_id() {
    let body = r#"{"choices":[{"message":{"content":""}}]}"#;
    let events = reply_events(
        exchange(),
        &ExchangeOutcome::Response(response(true, "200 OK", body)),
    );
    assert_eq!(events.len(), 3);
    match &events[1].kind {
        Some(EventType::ClientActions(a)) => match &a.actions[0].action {
            Some(Action::AddMessagesToTask(add)) => assert_eq!(add.messages[0].id.len(), 36),
            _ => panic!("expected AddMessagesToTask"),
        },
        _ => panic!("expected ClientActions"),
    }
    let failed = reply_events(exchange(), &ExchangeOutcome::SendFailed("x".into()));
    assert_eq!(failed.len(), 2);
}

#[test]
fn failures_are_shown() {
    assert_eq!(
        failure(ExchangeOutcome::SendFailed("refused".into())),
        "local endpoint error: POST to local endpoint failed: refused"
    );
    assert_eq!(
        failure(ExchangeOutcome::ReadFailed("cut off".into())),
        "local endpoint error: reading local endpoint response body: cut off"
    );
    assert_eq!(
        failure(ExchangeOutcome::Response(response(false, "404 Not Found", "{}"))),
        "local endpoint error: local endpoint returned status 404 Not Found: {}"
    );
    assert_eq!(
        failure(ExchangeOutcome::Response(response(true, "200 OK", "{"))),
        "local endpoint error: decoding local endpoint response: {: EOF"
    );
    assert_eq!(
        failure(ExchangeOutcome::Response(response(true, "200 OK", r#"{"choices":[]}"#))),
        "local endpoint error: local endpoint returned no choices"
    );
    assert_eq!(
        read_response(&response(true, "200 OK", r#"{"choices":[{"message":{}}]}"#)),
        Err("local endpoint returned no choices".to_string())
    );
}

#[test]
fn long_bodies_are_clipped() {
    let body = format!("{}\u{20ac}", "b".repeat(511));
    assert_eq!(
        read_response(&response(false, "500 Internal Server Error", &body)),
        Err(format!(
            "local endpoint returned status 500 Internal Server Error: {}",
            "b".repeat(511)
        ))
    );
}

#[test]
fn replies_are_read() {
    let reply = OpenAiChatResponse::from_json(
        r#" {"id":"x","choices":[{"index":0,"message":{"role":"assistant","content":null}}]} "#,
    )
    .unwrap();
    assert_eq!(reply.choices.len(), 1);
    assert_eq!(reply.choices[0].message.content, None);
    assert_eq!(
        OpenAiChatResponse::from_json(r#"{"choices":[[["x"]]]}"#).unwrap().choices[0]
            .message
            .content
            .as_deref(),
        Some("x")
    );
    for body in [
        "",
        "{}",
        r#"{"choices":null}"#,
        r#"{"choices":[{}]}"#,
        r#"{"choices":[{"message":null}]}"#,
        r#"{"choices":[{"message":[]}]}"#,
        r#"{"choices":[{"message":{"content":[]}}]}"#,
    ] {
        assert!(OpenAiChatResponse::from_json(body).is_none(), "{}", body);
    }
}
