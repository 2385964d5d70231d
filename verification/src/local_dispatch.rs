//! Requests for a streamed reply, with tools.

use std::collections::BTreeMap;
use vstd::prelude::*;

use crate::agent::Input;
use crate::agent::InputType;
use crate::agent::InputTypeView;
use crate::agent::InputView;
use crate::agent::MessageType;
use crate::agent::MessageTypeView;
use crate::agent::MessageView;
use crate::agent::Request;
use crate::agent::RequestView;
use crate::agent::ResponseEvent;
use crate::agent::TaskView;
use crate::agent::ToolCall;
use crate::agent::ToolCallResult;
use crate::agent::ToolCallResultView;
use crate::agent::ToolCallView;
use crate::agent::ToolView;
use crate::agent::UserInput;
use crate::agent::UserInputType;
use crate::agent::UserInputTypeView;
use crate::agent::UserInputView;
use crate::conversation;
use crate::events;
use crate::events::DispatchError;
use crate::local_provider;
use crate::local_provider::ConfigView;
use crate::local_provider::LocalEndpointConfig;
use crate::mint;
use crate::openai::ChatMessageView;
use crate::openai::ChatRequestView;
use crate::openai::OpenAiChatMessage;
use crate::openai::OpenAiChatRequest;
use crate::openai::OpenAiToolCall;
use crate::pending;
use crate::streaming::StateView;
use crate::streaming::StreamingState;
use crate::tool_results;
use crate::tools;

verus! {

pub const SYSTEM_PROMPT: &'static str =
    "You are an assistant embedded in the Warp \
terminal, running on the user's machine via a local model. Reply in plain \
text by default. You may call tools when they help: run_shell_command, \
read_files, grep, file_glob, apply_file_diffs. Prefer one tool call at a \
time and wait for the result before deciding the next step. Do not invent \
tools that are not listed.";

// ---- History ---------------------------------------------------------------

/// An earlier call of a tool, as the assistant's message.
pub open spec fn call_entry(call: ToolCallView) -> Option<ChatMessageView> {
    match call.tool {
        Some(tool) => match tools::tool_call_of(tool, call.tool_call_id) {
            Some(c) => Some(
                ChatMessageView {
                    role: conversation::ROLE_ASSISTANT@,
                    content: None,
                    tool_call_id: None,
                    tool_calls: Some(seq![c]),
                },
            ),
            None => None,
        },
        None => None,
    }
}

/// The chat message for what was said, called or answered earlier.
pub open spec fn history_entry(payload: MessageTypeView) -> Option<ChatMessageView> {
    match payload {
        MessageTypeView::ToolCall(call) => call_entry(call),
        MessageTypeView::ToolCallResult(result) => result_entry(result),
        _ => conversation::query_entry(payload),
    }
}

fn read_call_entry(call: &ToolCall) -> (r: Option<OpenAiChatMessage>)
    ensures
        r.deep_view() == call_entry(call.deep_view()),
{
    match &call.tool {
        Some(tool) => match tools::warp_tool_to_openai_tool_call(
            tool,
            call.tool_call_id.as_str(),
        ) {
            Some(c) => {
                let calls: Vec<OpenAiToolCall> = vec![c];
                assert(calls.deep_view() =~= seq![c.deep_view()]);
                Some(
                    OpenAiChatMessage {
                        role: conversation::ROLE_ASSISTANT.to_string(),
                        content: None,
                        tool_call_id: None,
                        tool_calls: Some(calls),
                    },
                )
            },
            None => None,
        },
        None => None,
    }
}

/// Besides what was said, the model sees its own calls of advertised tools and
/// what came back from them. All else carries nothing that it needs for its
/// next move.
fn read_history_entry(payload: &MessageType) -> (r: Option<OpenAiChatMessage>)
    ensures
        r.deep_view() == history_entry(payload.deep_view()),
{
    match payload {
        MessageType::ToolCall(call) => read_call_entry(call),
        MessageType::ToolCallResult(result) => read_result_entry(result),
        _ => conversation::read_query_entry(payload),
    }
}

// ---- New input -------------------------------------------------------------

/// What a request's new input came to.
#[derive(Debug, Clone, Copy, PartialEq, Eq, Structural)]
pub enum InputKind {
    Nothing,
    UserQuery,
    ToolResult,
}

/// The message for a tool's result.
pub open spec fn result_entry(result: ToolCallResultView) -> Option<ChatMessageView> {
    match result.result {
        Some(r) => tool_results::result_message(result.tool_call_id, r),
        None => None,
    }
}

/// The message for one input of a batch.
pub open spec fn input_entry(input: UserInputView) -> Option<ChatMessageView> {
    match input.input {
        Some(UserInputTypeView::UserQuery(q)) => conversation::non_empty_message(
            conversation::ROLE_USER@,
            q.query,
        ),
        Some(UserInputTypeView::ToolCallResult(r)) => result_entry(r),
        _ => None,
    }
}

/// A later query in the batch takes the place of this one.
pub open spec fn superseded(inputs: Seq<UserInputView>, i: int) -> bool {
    is_query(inputs[i]) && exists|j: int| i < j < inputs.len() && is_query(#[trigger] inputs[j])
}

/// The places in a batch.
pub open spec fn places(inputs: Seq<UserInputView>) -> Seq<int> {
    Seq::new(inputs.len(), |i: int| i)
}

/// The message for the input at a place of a batch.
pub open spec fn entry_at(inputs: Seq<UserInputView>, i: int) -> Option<ChatMessageView> {
    if superseded(inputs, i) {
        None
    } else {
        input_entry(inputs[i])
    }
}

/// The messages for a batch: the most recent query, and every result.
pub open spec fn batch_messages(inputs: Seq<UserInputView>) -> Seq<ChatMessageView> {
    conversation::chosen(places(inputs), |i: int| entry_at(inputs, i))
}

/// The messages for a request's new input.
pub open spec fn new_messages(input: InputView) -> Seq<ChatMessageView> {
    match input.kind {
        Some(InputTypeView::UserInputs(batch)) => batch_messages(batch.inputs),
        Some(InputTypeView::UserQuery(q)) => match conversation::non_empty_message(
            conversation::ROLE_USER@,
            q.query,
        ) {
            Some(m) => seq![m],
            None => Seq::empty(),
        },
        Some(InputTypeView::ToolCallResult(r)) => match result_entry(r) {
            Some(m) => seq![m],
            None => Seq::empty(),
        },
        _ => Seq::empty(),
    }
}

/// A query that says something.
pub open spec fn is_query(input: UserInputView) -> bool {
    input.input matches Some(UserInputTypeView::UserQuery(q)) && q.query.len() > 0
}

/// A batch counts as a query where one is in it, else as a result where one
/// is.
pub open spec fn batch_kind(inputs: Seq<UserInputView>) -> InputKind {
    if exists|i: int| 0 <= i < inputs.len() && is_query(#[trigger] inputs[i]) {
        InputKind::UserQuery
    } else if batch_messages(inputs).len() > 0 {
        InputKind::ToolResult
    } else {
        InputKind::Nothing
    }
}

/// What the new input comes to.
pub open spec fn input_kind(input: InputView) -> InputKind {
    match input.kind {
        Some(InputTypeView::UserInputs(batch)) => batch_kind(batch.inputs),
        Some(InputTypeView::UserQuery(q)) => if q.query.len() > 0 {
            InputKind::UserQuery
        } else {
            InputKind::Nothing
        },
        Some(InputTypeView::ToolCallResult(r)) => if result_entry(r) is Some {
            InputKind::ToolResult
        } else {
            InputKind::Nothing
        },
        _ => InputKind::Nothing,
    }
}

fn read_result_entry(result: &ToolCallResult) -> (r: Option<OpenAiChatMessage>)
    ensures
        r.deep_view() == result_entry(result.deep_view()),
{
    match &result.result {
        Some(r) => tool_results::warp_tool_result_to_openai_message(
            result.tool_call_id.clone(),
            r,
        ),
        None => None,
    }
}

fn says_query(input: &UserInput) -> (r: bool)
    ensures
        r == is_query(input.deep_view()),
{
    match &input.input {
        Some(UserInputType::UserQuery(q)) => !q.query.as_str().is_empty(),
        _ => false,
    }
}

/// How many inputs there are up to the last query; none where there is none.
fn up_to_last_query(inputs: &Vec<UserInput>) -> (n: usize)
    ensures
        n <= inputs@.len(),
        n > 0 ==> is_query(inputs.deep_view()[n - 1]),
        forall|j: int| n <= j < inputs@.len() ==> !is_query(#[trigger] inputs.deep_view()[j]),
{
    let ghost all = inputs.deep_view();
    let mut n: usize = inputs.len();
    while n > 0
        invariant
            n <= inputs@.len(),
            all == inputs.deep_view(),
            forall|j: int| n <= j < inputs@.len() ==> !is_query(#[trigger] all[j]),
        decreases n,
    {
        assert(all[n - 1] == inputs[n - 1].deep_view());
        if says_query(&inputs[n - 1]) {
            return n;
        }
        n = n - 1;
    }
    n
}

fn read_input_entry(input: &UserInput) -> (r: Option<OpenAiChatMessage>)
    ensures
        r.deep_view() == input_entry(input.deep_view()),
{
    match &input.input {
        Some(UserInputType::UserQuery(q)) => conversation::write_non_empty_message(
            conversation::ROLE_USER,
            q.query.as_str(),
        ),
        Some(UserInputType::ToolCallResult(r)) => read_result_entry(r),
        _ => None,
    }
}

fn append_batch(inputs: &Vec<UserInput>, messages: &mut Vec<OpenAiChatMessage>) -> (kind: InputKind)
    ensures
        final(messages).deep_view() == old(messages).deep_view() + batch_messages(
            inputs.deep_view(),
        ),
        kind == batch_kind(inputs.deep_view()),
{
    let ghost all = inputs.deep_view();
    let ghost before = messages.deep_view();
    let ghost at = places(all);
    let ghost f = |i: int| entry_at(all, i);
    let asked: usize = up_to_last_query(inputs);
    let mut found: bool = false;
    let mut i: usize = 0;
    proof {
        assert(at.take(0) =~= Seq::empty());
        assert(before + conversation::chosen(at.take(0), f) =~= before);
    }
    while i < inputs.len()
        invariant
            i <= inputs@.len(),
            asked <= inputs@.len(),
            all == inputs.deep_view(),
            at == places(all),
            f == (|i: int| entry_at(all, i)),
            asked > 0 ==> is_query(all[asked - 1]),
            forall|j: int| asked <= j < all.len() ==> !is_query(#[trigger] all[j]),
            messages.deep_view() == before + conversation::chosen(at.take(i as int), f),
            found == (conversation::chosen(at.take(i as int), f).len() > 0),
        decreases inputs@.len() - i,
    {
        let ghost prior = messages.deep_view();
        let ghost next = at.take(i + 1);
        proof {
            assert(next.drop_last() =~= at.take(i as int));
            assert(next.last() == i);
            assert(all[i as int] == inputs[i as int].deep_view());
            assert(superseded(all, i as int) == (is_query(all[i as int]) && i + 1 < asked)) by {
                if i + 1 < asked {
                    assert(is_query(all[asked - 1]));
                }
            }
        }
        if !(says_query(&inputs[i]) && i + 1 < asked) {
            if let Some(m) = read_input_entry(&inputs[i]) {
                messages.push(m);
                found = true;
                assert(messages.deep_view() =~= prior.push(m.deep_view()));
            }
        }
        assert(messages.deep_view() =~= before + conversation::chosen(next, f));
        i = i + 1;
    }
    assert(at.take(i as int) =~= at);
    if asked > 0 {
        assert(is_query(all[asked - 1]));
        InputKind::UserQuery
    } else if found {
        InputKind::ToolResult
    } else {
        InputKind::Nothing
    }
}

/// Appends the messages for the new input: one for the user's query, the most
/// recent one where there are several, and one for each result of a tool that
/// closes an earlier round.
pub fn append_new_inputs(input: &Input, messages: &mut Vec<OpenAiChatMessage>) -> (kind: InputKind)
    ensures
        final(messages).deep_view() == old(messages).deep_view() + new_messages(
            input.deep_view(),
        ),
        kind == input_kind(input.deep_view()),
{
    let ghost prior = messages.deep_view();
    match &input.kind {
        Some(InputType::UserInputs(batch)) => {
            return append_batch(&batch.inputs, messages);
        },
        Some(InputType::UserQuery(q)) => {
            match conversation::write_non_empty_message(
                conversation::ROLE_USER,
                q.query.as_str(),
            ) {
                Some(m) => {
                    messages.push(m);
                    assert(messages.deep_view() =~= prior + seq![m.deep_view()]);
                    return InputKind::UserQuery;
                },
                None => {},
            }
        },
        Some(InputType::ToolCallResult(r)) => {
            match read_result_entry(r) {
                Some(m) => {
                    messages.push(m);
                    assert(messages.deep_view() =~= prior + seq![m.deep_view()]);
                    return InputKind::ToolResult;
                },
                None => {},
            }
        },
        _ => {},
    }
    assert(prior + Seq::<ChatMessageView>::empty() =~= prior);
    InputKind::Nothing
}

// ---- The request -----------------------------------------------------------

/// All that was said, called and answered, and the new input.
pub open spec fn dialogue(request: RequestView) -> Seq<ChatMessageView> {
    conversation::history(request, |p: MessageTypeView| history_entry(p)) + match request.input {
        Some(input) => new_messages(input),
        None => Seq::empty(),
    }
}

/// The chat request for an agent's request. There is none where nothing in the
/// dialogue comes from the user's side.
pub open spec fn translated(request: RequestView, config: ConfigView) -> Option<ChatRequestView> {
    if !conversation::has_user_input(dialogue(request)) {
        None
    } else {
        Some(
            ChatRequestView {
                model: config.model,
                messages: seq![
                    conversation::text_message(conversation::ROLE_SYSTEM@, SYSTEM_PROMPT@),
                ] + dialogue(request),
                stream: Some(true),
                tools: Some(tools::tool_catalog()),
            },
        )
    }
}

/// Builds the chat request: the system prompt, the conversation in order, and
/// the new input. Returns `None` where nothing comes from the user's side.
pub fn translate_request(request: &Request, config: &LocalEndpointConfig) -> (r: Option<
    OpenAiChatRequest,
>)
    ensures
        r.deep_view() == translated(request.deep_view(), config.deep_view()),
{
    let mut messages: Vec<OpenAiChatMessage> = conversation::walk_history(
        request,
        read_history_entry,
        Ghost(|p: MessageTypeView| history_entry(p)),
    );
    let ghost past = messages.deep_view();
    match &request.input {
        Some(input) => {
            append_new_inputs(input, &mut messages);
        },
        None => {
            assert(past + Seq::<ChatMessageView>::empty() =~= past);
        },
    }
    assert(messages.deep_view() =~= dialogue(request.deep_view()));
    if !conversation::holds_user_input(&messages) {
        return None;
    }
    let ghost said = messages.deep_view();
    let prompt: OpenAiChatMessage = conversation::write_text_message(
        conversation::ROLE_SYSTEM,
        SYSTEM_PROMPT,
    );
    messages.insert(0, prompt);
    assert(messages.deep_view() =~= seq![prompt.deep_view()] + said);
    Some(
        OpenAiChatRequest {
            model: config.model.clone(),
            messages,
            stream: Some(true),
            tools: Some(tools::supported_tools()),
        },
    )
}

// ---- Dispatch --------------------------------------------------------------

/// All that is needed to send a request and to take in the streamed reply.
pub struct LocalStream {
    /// The body to post, in its JSON form.
    pub chat_request: OpenAiChatRequest,
    pub url: String,
    /// Goes along as bearer token.
    pub api_key: Option<String>,
    pub state: StreamingState,
}

/// What [`LocalStream`] holds.
#[verifier::ext_equal]
pub struct LocalStreamView {
    pub chat_request: ChatRequestView,
    pub url: Seq<char>,
    pub api_key: Option<Seq<char>>,
    pub state: StateView,
}

impl DeepView for LocalStream {
    type V = LocalStreamView;

    open spec fn deep_view(&self) -> LocalStreamView {
        LocalStreamView {
            chat_request: self.chat_request.deep_view(),
            url: self.url@,
            api_key: self.api_key.deep_view(),
            state: self.state.deep_view(),
        }
    }
}

/// The state before the first frame.
pub open spec fn fresh_state(
    request: RequestView,
    task_id: Seq<char>,
    request_id: Seq<char>,
    message_id: Seq<char>,
) -> StateView {
    StateView {
        task_id,
        request_id,
        message_id,
        emitted_init: false,
        emitted_placeholder: false,
        finished: false,
        pending_init: Some(events::init_event(request, request_id)),
        calls: Map::empty(),
    }
}

/// How a request is dispatched, or why it cannot be.
pub open spec fn dispatched(
    request: RequestView,
    config: ConfigView,
    request_id: Seq<char>,
    message_id: Seq<char>,
) -> Result<LocalStreamView, DispatchError> {
    match (translated(request, config), events::target_task_id(request)) {
        (None, _) => Err(DispatchError::NoUserInput),
        (Some(_), None) => Err(DispatchError::NoTask),
        (Some(chat_request), Some(task_id)) => Ok(
            LocalStreamView {
                chat_request,
                url: local_provider::completions_url(config.base_url),
                api_key: config.api_key,
                state: fresh_state(request, task_id, request_id, message_id),
            },
        ),
    }
}

/// Prepares the dispatch of a request under the given ids.
pub fn dispatch_local_with(
    request: &Request,
    config: &LocalEndpointConfig,
    request_id: String,
    message_id: String,
) -> (r: Result<LocalStream, DispatchError>)
    ensures
        match r {
            Ok(stream) => dispatched(
                request.deep_view(),
                config.deep_view(),
                request_id@,
                message_id@,
            ) == Ok::<LocalStreamView, DispatchError>(stream.deep_view()),
            Err(e) => dispatched(request.deep_view(), config.deep_view(), request_id@, message_id@)
                == Err::<LocalStreamView, DispatchError>(e),
        },
{
    let chat_request: OpenAiChatRequest = match translate_request(request, config) {
        Some(chat_request) => chat_request,
        None => {
            return Err(DispatchError::NoUserInput);
        },
    };
    let task_id: String = match events::pick_target_task_id(request) {
        Some(task_id) => task_id,
        None => {
            return Err(DispatchError::NoTask);
        },
    };
    let init: ResponseEvent = events::build_init_event(request, request_id.as_str());
    let state = StreamingState {
        task_id,
        request_id,
        message_id,
        emitted_init: false,
        emitted_placeholder: false,
        finished: false,
        pending_init: Some(init),
        pending_tool_calls: BTreeMap::new(),
    };
    assert(state.deep_view().calls =~= Map::empty());
    let api_key: Option<String> = match &config.api_key {
        Some(key) => Some(key.clone()),
        None => None,
    };
    Ok(LocalStream { chat_request, url: config.chat_completions_url(), api_key, state })
}

/// Prepares the dispatch of a request: what to post, where, and the state
/// that takes in the frames of the reply. The reply and its message go by
/// fresh ids.
pub fn dispatch_local(request: &Request, config: &LocalEndpointConfig) -> (r: Result<
    LocalStream,
    DispatchError,
>)
    ensures
        match r {
            Ok(stream) => {
                let state = stream.deep_view().state;
                &&& mint::is_minted_id(state.request_id)
                &&& mint::is_minted_id(state.message_id)
                &&& dispatched(
                    request.deep_view(),
                    config.deep_view(),
                    state.request_id,
                    state.message_id,
                ) == Ok::<LocalStreamView, DispatchError>(stream.deep_view())
            },
            Err(e) => forall|request_id: Seq<char>, message_id: Seq<char>| #[trigger]
                dispatched(request.deep_view(), config.deep_view(), request_id, message_id)
                    == Err::<LocalStreamView, DispatchError>(e),
        },
{
    dispatch_local_with(request, config, mint::mint_id(), mint::mint_id())
}

// ---- Laws ------------------------------------------------------------------

/// A chat request starts with the system prompt, asks for a stream from the
/// configured model, and advertises the tools. There is always something
/// behind the prompt.
pub proof fn law_request_shape(request: RequestView, config: ConfigView)
    requires
        translated(request, config) is Some,
    ensures
        ({
            let r = translated(request, config)->0;
            &&& r.messages.len() >= 2
            &&& r.messages[0] == conversation::text_message(
                conversation::ROLE_SYSTEM@,
                SYSTEM_PROMPT@,
            )
            &&& r.messages.drop_first() == dialogue(request)
            &&& r.model == config.model
            &&& r.stream == Some(true)
            &&& r.tools == Some(tools::tool_catalog())
        }),
{
    let r = translated(request, config)->0;
    assert(r.messages.drop_first() =~= dialogue(request));
}

/// A call of an advertised tool in the history and its result, wherever the
/// two stand in a task, are told in that order: the assistant's message that
/// makes the call, what stands between the two, and a tool's message that
/// answers under the id of the call.
pub proof fn law_result_in_history_answers_its_call(
    request: RequestView,
    config: ConfigView,
    earlier: Seq<TaskView>,
    task: TaskView,
    later: Seq<TaskView>,
    before: Seq<MessageView>,
    call: MessageView,
    between: Seq<MessageView>,
    answer: MessageView,
    after: Seq<MessageView>,
)
    requires
        request.task_context matches Some(context) && context.tasks == earlier.push(task) + later,
        task.messages == before.push(call) + between.push(answer) + after,
        call.message matches Some(MessageTypeView::ToolCall(c)) && c.tool is Some && !(
        c.tool->0 is Other),
        answer.message matches Some(MessageTypeView::ToolCallResult(r)) && r.result is Some && !(
        r.result->0 is Other),
        (call.message->0)->ToolCall_0.tool_call_id == (
        answer.message->0)->ToolCallResult_0.tool_call_id,
    ensures
        ({
            let entry = |p: MessageTypeView| history_entry(p);
            let id = (call.message->0)->ToolCall_0.tool_call_id;
            let i: int = 1 + conversation::tasks_history(earlier, entry).len()
                + conversation::task_history(before, entry).len() as int;
            let said = conversation::task_history(between, entry);
            let j: int = i + 1 + said.len();
            let r = translated(request, config);
            &&& r is Some
            &&& j < r->0.messages.len()
            &&& r->0.messages[i].role == conversation::ROLE_ASSISTANT@
            &&& r->0.messages[i].tool_calls matches Some(calls) && calls.len() == 1 && calls[0].id
                == id
            &&& r->0.messages.subrange(i + 1, j) == said
            &&& r->0.messages[j].role == conversation::ROLE_TOOL@
            &&& r->0.messages[j].tool_call_id == Some(id)
            &&& r->0.messages[j].content == tool_results::result_text(
                (answer.message->0)->ToolCallResult_0.result->0,
            )
        }),
{
    let entry = |p: MessageTypeView| history_entry(p);
    let c = (call.message->0)->ToolCall_0;
    let a = (answer.message->0)->ToolCallResult_0;
    let asked = call_entry(c)->0;
    let answered = result_entry(a)->0;
    let asking = before.push(call);
    let answering = between.push(answer);
    let first = conversation::task_history(before, entry);
    let said = conversation::task_history(between, entry);
    let last = conversation::task_history(after, entry);
    tool_results::law_result_answers_its_call(a.tool_call_id, a.result->0);
    assert(call_entry(c) is Some);
    assert(entry(call.message->0) == Some(asked));
    assert(entry(answer.message->0) == Some(answered));
    assert(asking.drop_last() =~= before);
    assert(answering.drop_last() =~= between);
    assert(conversation::task_history(asking, entry) == first.push(asked));
    assert(conversation::task_history(answering, entry) == said.push(answered));
    conversation::law_messages_stay_in_order(asking, answering, entry);
    conversation::law_messages_stay_in_order(asking + answering, after, entry);
    let told = first.push(asked) + said.push(answered) + last;
    assert(conversation::task_history(task.messages, entry) == told);

    let tasks = earlier.push(task);
    let head = conversation::tasks_history(earlier, entry);
    let tail = conversation::tasks_history(later, entry);
    assert(tasks.drop_last() =~= earlier);
    assert(conversation::tasks_history(tasks, entry) == head + told);
    conversation::law_tasks_stay_in_order(tasks, later, entry);
    assert(conversation::history(request, entry) == head + told + tail);

    let d = dialogue(request);
    let k: int = head.len() + first.len() as int;
    let n: int = k + 1 + said.len();
    assert(d[k] == asked);
    assert(d[n] == answered);
    assert(conversation::is_user_facing(d[n]));
    let r = translated(request, config)->0;
    assert(r.messages.subrange(k + 2, n + 1) =~= said);
}

/// The new input comes last, and a request with new input is always sent.
pub proof fn law_new_input_comes_last(request: RequestView, config: ConfigView)
    requires
        request.input is Some,
        input_kind(request.input->0) != InputKind::Nothing,
    ensures
        translated(request, config) is Some,
        ({
            let r = translated(request, config)->0;
            let new = new_messages(request.input->0);
            &&& 0 < new.len() <= r.messages.len()
            &&& r.messages.skip(r.messages.len() - new.len()) == new
        }),
{
    let input = request.input->0;
    let new = new_messages(input);
    law_input_kind(input);
    lemma_new_messages_are_user_facing(input);
    let d = dialogue(request);
    assert(d[d.len() - 1] == new[new.len() - 1]);
    assert(conversation::is_user_facing(d[d.len() - 1]));
    let r = translated(request, config)->0;
    assert(r.messages.skip(r.messages.len() - new.len()) =~= new);
}

/// New input counts as something exactly where it adds a message.
pub proof fn law_input_kind(input: InputView)
    ensures
        input_kind(input) == InputKind::Nothing <==> new_messages(input).len() == 0,
{
    if let Some(InputTypeView::UserInputs(batch)) = input.kind {
        let inputs = batch.inputs;
        if exists|i: int| 0 <= i < inputs.len() && is_query(#[trigger] inputs[i]) {
            let i = choose|i: int| 0 <= i < inputs.len() && is_query(#[trigger] inputs[i]);
            let last = lemma_last_query(inputs, i);
            assert(!superseded(inputs, last));
            assert(places(inputs)[last] == last);
            conversation::lemma_chosen_some(
                places(inputs),
                |i: int| entry_at(inputs, i),
                last,
            );
        }
    }
}

/// A batch with a query has a last one.
proof fn lemma_last_query(inputs: Seq<UserInputView>, i: int) -> (last: int)
    requires
        0 <= i < inputs.len(),
        is_query(inputs[i]),
    ensures
        i <= last < inputs.len(),
        is_query(inputs[last]),
        forall|j: int| last < j < inputs.len() ==> !is_query(#[trigger] inputs[j]),
    decreases inputs.len() - i,
{
    if exists|j: int| i < j < inputs.len() && is_query(#[trigger] inputs[j]) {
        let j = choose|j: int| i < j < inputs.len() && is_query(#[trigger] inputs[j]);
        lemma_last_query(inputs, j)
    } else {
        i
    }
}

/// New input comes from the user's side.
proof fn lemma_new_messages_are_user_facing(input: InputView)
    ensures
        forall|i: int|
            0 <= i < new_messages(input).len() ==> conversation::is_user_facing(
                #[trigger] new_messages(input)[i],
            ),
{
    if let Some(InputTypeView::UserInputs(batch)) = input.kind {
        let inputs = batch.inputs;
        lemma_entries_are_user_facing(inputs, places(inputs));
    }
}

proof fn lemma_entries_are_user_facing(inputs: Seq<UserInputView>, at: Seq<int>)
    ensures
        ({
            let messages = conversation::chosen(at, |i: int| entry_at(inputs, i));
            forall|i: int|
                0 <= i < messages.len() ==> conversation::is_user_facing(#[trigger] messages[i])
        }),
    decreases at.len(),
{
    if at.len() > 0 {
        let f = |i: int| entry_at(inputs, i);
        let before = conversation::chosen(at.drop_last(), f);
        let messages = conversation::chosen(at, f);
        lemma_entries_are_user_facing(inputs, at.drop_last());
        assert forall|i: int| 0 <= i < messages.len() implies conversation::is_user_facing(
            #[trigger] messages[i],
        ) by {
            if i < before.len() {
                assert(messages[i] == before[i]);
            } else {
                assert(f(at.last()) == Some(messages[i]));
            }
        }
    }
}

/// The messages of a role.
pub open spec fn in_role(messages: Seq<ChatMessageView>, role: Seq<char>) -> Seq<
    ChatMessageView,
> {
    conversation::chosen(
        messages,
        |m: ChatMessageView|
            if m.role == role {
                Some(m)
            } else {
                None
            },
    )
}

/// Of the queries in a batch only the most recent is asked.
pub proof fn law_one_query_is_asked(inputs: Seq<UserInputView>, last: int)
    requires
        0 <= last < inputs.len(),
        is_query(inputs[last]),
        forall|j: int| last < j < inputs.len() ==> !is_query(#[trigger] inputs[j]),
    ensures
        inputs[last].input matches Some(UserInputTypeView::UserQuery(q)) && in_role(
            batch_messages(inputs),
            conversation::ROLE_USER@,
        ) == seq![conversation::text_message(conversation::ROLE_USER@, q.query)],
{
    lemma_asked_so_far(inputs, last, inputs.len() as int);
    assert(places(inputs).take(inputs.len() as int) =~= places(inputs));
}

proof fn lemma_asked_so_far(inputs: Seq<UserInputView>, last: int, n: int)
    requires
        0 <= last < inputs.len(),
        0 <= n <= inputs.len(),
        is_query(inputs[last]),
        forall|j: int| last < j < inputs.len() ==> !is_query(#[trigger] inputs[j]),
    ensures
        ({
            let so_far = conversation::chosen(
                places(inputs).take(n),
                |i: int| entry_at(inputs, i),
            );
            in_role(so_far, conversation::ROLE_USER@) == (if n <= last {
                Seq::empty()
            } else {
                seq![input_entry(inputs[last])->0]
            })
        }),
    decreases n,
{
    let f = |i: int| entry_at(inputs, i);
    let at = places(inputs);
    conversation::lemma_roles_differ();
    if n == 0 {
        assert(at.take(0) =~= Seq::empty());
    } else {
        let k = n - 1;
        lemma_asked_so_far(inputs, last, k);
        assert(at.take(n).drop_last() =~= at.take(k));
        assert(at.take(n).last() == k);
        let before = conversation::chosen(at.take(k), f);
        let now = conversation::chosen(at.take(n), f);
        if k < last && is_query(inputs[k]) {
            assert(superseded(inputs, k));
        }
        if k == last {
            assert(!superseded(inputs, k));
        }
        match f(k) {
            Some(m) => {
                assert(now == before.push(m));
                assert(now.drop_last() =~= before);
                assert(m.role == conversation::ROLE_USER@ <==> k == last);
                if k == last {
                    assert(in_role(now, conversation::ROLE_USER@) =~= seq![m]);
                }
            },
            None => {
                assert(now == before);
            },
        }
    }
}

/// Where nothing comes from the user's side, neither now nor earlier, nothing
/// is sent, whatever the agent may have said or called.
pub proof fn law_nothing_asked_is_not_sent(request: RequestView, config: ConfigView)
    requires
        forall|i: int|
            0 <= i < dialogue(request).len() ==> (#[trigger] dialogue(request)[i]).role
                == conversation::ROLE_ASSISTANT@,
    ensures
        translated(request, config) is None,
{
    conversation::lemma_roles_differ();
}

/// A request is refused for want of input before it is for want of a task,
/// and sent wherever it has both.
pub proof fn law_dispatch_succeeds(
    request: RequestView,
    config: ConfigView,
    request_id: Seq<char>,
    message_id: Seq<char>,
)
    ensures
        ({
            let r = dispatched(request, config, request_id, message_id);
            &&& r is Ok <==> conversation::has_user_input(dialogue(request))
                && events::target_task_id(request) is Some
            &&& r == Err::<LocalStreamView, DispatchError>(DispatchError::NoUserInput)
                <==> !conversation::has_user_input(dialogue(request))
            &&& r == Err::<LocalStreamView, DispatchError>(DispatchError::NoTask)
                <==> conversation::has_user_input(dialogue(request))
                && events::target_task_id(request) is None
        }),
{
}

// ---- The request, message by message ---------------------------------------

/// What the model is told of one message of the conversation: a query in the
/// role of the user, the agent's text and its calls in that of the assistant,
/// and the result of a call in that of a tool. Empty texts, tools that are not
/// advertised, and all else are left out.
pub open spec fn told(message: MessageView) -> Seq<ChatMessageView> {
    match message.message {
        Some(MessageTypeView::UserQuery(q)) => if q.query.len() > 0 {
            seq![
                ChatMessageView {
                    role: "user"@,
                    content: Some(q.query),
                    tool_call_id: None,
                    tool_calls: None,
                },
            ]
        } else {
            Seq::empty()
        },
        Some(MessageTypeView::AgentOutput(a)) => if a.text.len() > 0 {
            seq![
                ChatMessageView {
                    role: "assistant"@,
                    content: Some(a.text),
                    tool_call_id: None,
                    tool_calls: None,
                },
            ]
        } else {
            Seq::empty()
        },
        Some(
            MessageTypeView::ToolCall(ToolCallView { tool_call_id, tool: Some(tool) }),
        ) => match tools::tool_call_of(tool, tool_call_id) {
            Some(call) => seq![
                ChatMessageView {
                    role: "assistant"@,
                    content: None,
                    tool_call_id: None,
                    tool_calls: Some(seq![call]),
                },
            ],
            None => Seq::empty(),
        },
        Some(MessageTypeView::ToolCallResult(r)) => answered(r),
        _ => Seq::empty(),
    }
}

/// What the model is told of the result of a call.
pub open spec fn answered(r: ToolCallResultView) -> Seq<ChatMessageView> {
    match r.result {
        Some(result) => match tool_results::result_text(result) {
            Some(content) => seq![
                ChatMessageView {
                    role: "tool"@,
                    content: Some(content),
                    tool_call_id: Some(r.tool_call_id),
                    tool_calls: None,
                },
            ],
            None => Seq::empty(),
        },
        None => Seq::empty(),
    }
}

/// What the model is told of the messages of a task, in their order.
pub open spec fn messages_told(messages: Seq<MessageView>) -> Seq<ChatMessageView>
    decreases messages.len(),
{
    if messages.len() == 0 {
        Seq::empty()
    } else {
        messages_told(messages.drop_last()) + told(messages.last())
    }
}

/// What the model is told of the tasks, in their order.
pub open spec fn tasks_told(tasks: Seq<TaskView>) -> Seq<ChatMessageView>
    decreases tasks.len(),
{
    if tasks.len() == 0 {
        Seq::empty()
    } else {
        tasks_told(tasks.drop_last()) + messages_told(tasks.last().messages)
    }
}

/// What the model is asked.
pub open spec fn asked(query: Seq<char>) -> Seq<ChatMessageView> {
    if query.len() > 0 {
        seq![
            ChatMessageView {
                role: "user"@,
                content: Some(query),
                tool_call_id: None,
                tool_calls: None,
            },
        ]
    } else {
        Seq::empty()
    }
}

/// What the model is told of a batch of inputs, in their order: every result,
/// and of the queries the last one that says something, unless `superseded_by`
/// says that one came later.
pub open spec fn batch_told(inputs: Seq<UserInputView>, superseded_by: bool) -> Seq<ChatMessageView>
    decreases inputs.len(),
{
    if inputs.len() == 0 {
        Seq::empty()
    } else {
        match inputs.last().input {
            Some(UserInputTypeView::UserQuery(q)) => if superseded_by {
                batch_told(inputs.drop_last(), true)
            } else {
                batch_told(inputs.drop_last(), q.query.len() > 0) + asked(q.query)
            },
            Some(UserInputTypeView::ToolCallResult(r)) => batch_told(
                inputs.drop_last(),
                superseded_by,
            ) + answered(r),
            _ => batch_told(inputs.drop_last(), superseded_by),
        }
    }
}

/// What the model is told of a request's new input.
pub open spec fn input_told(input: Option<InputView>) -> Seq<ChatMessageView> {
    match input {
        Some(InputView { kind: Some(InputTypeView::UserInputs(batch)) }) => batch_told(
            batch.inputs,
            false,
        ),
        Some(InputView { kind: Some(InputTypeView::UserQuery(q)) }) => asked(q.query),
        Some(InputView { kind: Some(InputTypeView::ToolCallResult(r)) }) => answered(r),
        _ => Seq::empty(),
    }
}

/// All that the model is told behind the prompt.
pub open spec fn all_told(request: RequestView) -> Seq<ChatMessageView> {
    (match request.task_context {
        Some(context) => tasks_told(context.tasks),
        None => Seq::empty(),
    }) + input_told(request.input)
}

proof fn lemma_messages_told(messages: Seq<MessageView>)
    ensures
        conversation::task_history(messages, |p: MessageTypeView| history_entry(p))
            == messages_told(messages),
    decreases messages.len(),
{
    let entry = |p: MessageTypeView| history_entry(p);
    let f = |m: MessageView| conversation::message_entry(m, entry);
    if messages.len() > 0 {
        lemma_messages_told(messages.drop_last());
        let before = messages_told(messages.drop_last());
        match f(messages.last()) {
            Some(m) => {
                assert(told(messages.last()) =~= seq![m]);
                assert(before + seq![m] =~= before.push(m));
            },
            None => {
                assert(told(messages.last()) =~= Seq::empty());
                assert(before + Seq::<ChatMessageView>::empty() =~= before);
            },
        }
    }
}

proof fn lemma_tasks_told(tasks: Seq<TaskView>)
    ensures
        conversation::tasks_history(tasks, |p: MessageTypeView| history_entry(p)) == tasks_told(
            tasks,
        ),
    decreases tasks.len(),
{
    if tasks.len() > 0 {
        lemma_tasks_told(tasks.drop_last());
        lemma_messages_told(tasks.last().messages);
    }
}

proof fn lemma_batch_told(inputs: Seq<UserInputView>, n: int)
    requires
        0 <= n <= inputs.len(),
    ensures
        conversation::chosen(places(inputs).take(n), |i: int| entry_at(inputs, i)) == batch_told(
            inputs.take(n),
            exists|j: int| n <= j < inputs.len() && is_query(#[trigger] inputs[j]),
        ),
    decreases n,
{
    let f = |i: int| entry_at(inputs, i);
    let at = places(inputs);
    let later = exists|j: int| n <= j < inputs.len() && is_query(#[trigger] inputs[j]);
    if n == 0 {
        assert(at.take(0) =~= Seq::empty());
    } else {
        let k = n - 1;
        let now = exists|j: int| k <= j < inputs.len() && is_query(#[trigger] inputs[j]);
        lemma_batch_told(inputs, k);
        assert(at.take(n).drop_last() =~= at.take(k));
        assert(at.take(n).last() == k);
        assert(inputs.take(n).drop_last() =~= inputs.take(k));
        assert(inputs.take(n).last() == inputs[k]);
        assert(superseded(inputs, k) == (is_query(inputs[k]) && later));
        assert(now == (is_query(inputs[k]) || later));
        let before = conversation::chosen(at.take(k), f);
        assert(before + Seq::<ChatMessageView>::empty() =~= before);
        match f(k) {
            Some(m) => assert(before + seq![m] =~= before.push(m)),
            None => {},
        }
    }
}

/// New input is told as it is: every result, and of the queries the last one.
pub proof fn law_new_input_is_told(input: InputView)
    ensures
        new_messages(input) == input_told(Some(input)),
{
    if let Some(InputTypeView::UserInputs(batch)) = input.kind {
        let inputs = batch.inputs;
        lemma_batch_told(inputs, inputs.len() as int);
        assert(places(inputs).take(inputs.len() as int) =~= places(inputs));
        assert(inputs.take(inputs.len() as int) =~= inputs);
    }
    assert(new_messages(input) =~= input_told(Some(input)));
}

proof fn lemma_all_told(request: RequestView)
    ensures
        dialogue(request) == all_told(request),
{
    match request.task_context {
        Some(context) => lemma_tasks_told(context.tasks),
        None => {},
    }
    if let Some(input) = request.input {
        law_new_input_is_told(input);
    }
}

/// A chat request tells the model the whole conversation, message by message:
/// the system prompt, every task and every message of it in order, and the new
/// input, each text as it is. It asks the configured model for a stream and
/// advertises the tools. There is a request exactly where something in it comes
/// from the user or from a tool.
pub proof fn law_request_tells_the_conversation(request: RequestView, config: ConfigView)
    ensures
        translated(request, config) is Some <==> exists|i: int|
            0 <= i < all_told(request).len() && ((#[trigger] all_told(request)[i]).role == "user"@
                || all_told(request)[i].role == "tool"@),
        translated(request, config) matches Some(r) ==> {
            &&& r.messages == seq![
                ChatMessageView {
                    role: "system"@,
                    content: Some(SYSTEM_PROMPT@),
                    tool_call_id: None,
                    tool_calls: None,
                },
            ] + all_told(request)
            &&& r.model == config.model
            &&& r.stream == Some(true)
            &&& r.tools == Some(tools::tool_catalog())
        },
{
    lemma_all_told(request);
    let d = dialogue(request);
    if translated(request, config) is Some {
        let i = choose|i: int| 0 <= i < d.len() && conversation::is_user_facing(#[trigger] d[i]);
        assert(all_told(request)[i].role == "user"@ || all_told(request)[i].role == "tool"@);
    }
    if exists|i: int|
        0 <= i < d.len() && ((#[trigger] d[i]).role == "user"@ || d[i].role == "tool"@) {
        let i = choose|i: int|
            0 <= i < d.len() && ((#[trigger] d[i]).role == "user"@ || d[i].role == "tool"@);
        assert(conversation::is_user_facing(d[i]));
    }
}

/// A call in the history comes to the model whole: as one call of the assistant,
/// under its id, whose name and arguments build the same tool again, as far as a
/// call can carry it. Only a call of a tool that is not advertised is left out.
pub proof fn law_call_in_history_can_be_made_again(call: ToolCallView, tool: ToolView)
    requires
        call.tool == Some(tool),
    ensures
        history_entry(MessageTypeView::ToolCall(call)) is None <==> tool is Other,
        history_entry(MessageTypeView::ToolCall(call)) matches Some(m) ==> {
            &&& m.role == "assistant"@
            &&& m.content is None
            &&& m.tool_call_id is None
            &&& m.tool_calls is Some
            &&& m.tool_calls->0.len() == 1
            &&& m.tool_calls->0[0].id == call.tool_call_id
            &&& m.tool_calls->0[0].kind == "function"@
            &&& tools::built_tool(m.tool_calls->0[0].name, m.tool_calls->0[0].arguments) == Some(
                tools::carried(tool),
            )
        },
{
    tools::law_calls_are_advertised(tool, call.tool_call_id);
    if !(tool is Other) {
        tools::law_round_trip(tool, call.tool_call_id);
    }
}

/// What a request's new input comes to: a query where one was asked, else a
/// result where there is one, else nothing.
pub proof fn law_kind_of_new_input(input: InputView)
    ensures
        ({
            let messages = input_told(Some(input));
            match input_kind(input) {
                InputKind::UserQuery => exists|i: int|
                    0 <= i < messages.len() && (#[trigger] messages[i]).role == "user"@,
                InputKind::ToolResult => messages.len() > 0 && forall|i: int|
                    0 <= i < messages.len() ==> (#[trigger] messages[i]).role == "tool"@,
                InputKind::Nothing => messages.len() == 0,
            }
        }),
{
    let messages = input_told(Some(input));
    conversation::lemma_roles_differ();
    match input.kind {
        Some(InputTypeView::UserInputs(batch)) => {
            let inputs = batch.inputs;
            law_new_input_is_told(input);
            lemma_batch_roles(inputs, false);
            law_input_kind(input);
            if exists|i: int| 0 <= i < inputs.len() && is_query(#[trigger] inputs[i]) {
                let i = choose|i: int| 0 <= i < inputs.len() && is_query(#[trigger] inputs[i]);
                lemma_query_is_told(inputs, i);
            } else {
                assert forall|i: int| 0 <= i < messages.len() implies (#[trigger] messages[i]).role
                    == "tool"@ by {}
            }
        },
        Some(InputTypeView::UserQuery(q)) => {
            if q.query.len() > 0 {
                assert(messages[0].role == "user"@);
            }
        },
        _ => {},
    }
}

/// Of a batch the model is told queries and results, and a query only where
/// there is one.
proof fn lemma_batch_roles(inputs: Seq<UserInputView>, superseded_by: bool)
    ensures
        forall|i: int|
            0 <= i < batch_told(inputs, superseded_by).len() ==> {
                let m = #[trigger] batch_told(inputs, superseded_by)[i];
                m.role == "tool"@ || (m.role == "user"@ && exists|j: int|
                    0 <= j < inputs.len() && is_query(#[trigger] inputs[j]))
            },
    decreases inputs.len(),
{
    if inputs.len() > 0 {
        let shorter = inputs.drop_last();
        lemma_batch_roles(shorter, true);
        lemma_batch_roles(shorter, false);
        let all = batch_told(inputs, superseded_by);
        let n = inputs.len() - 1;
        assert forall|i: int| 0 <= i < all.len() implies ({
            let m = #[trigger] all[i];
            m.role == "tool"@ || (m.role == "user"@ && exists|j: int|
                0 <= j < inputs.len() && is_query(#[trigger] inputs[j]))
        }) by {
            if exists|j: int| 0 <= j < shorter.len() && is_query(#[trigger] shorter[j]) {
                let j = choose|j: int| 0 <= j < shorter.len() && is_query(#[trigger] shorter[j]);
                assert(is_query(inputs[j]));
            }
            if is_query(inputs[n]) {
                assert(exists|j: int| 0 <= j < inputs.len() && is_query(#[trigger] inputs[j]));
            }
            let a = batch_told(shorter, true);
            let b = batch_told(shorter, false);
            match inputs.last().input {
                Some(UserInputTypeView::UserQuery(q)) => {
                    if superseded_by {
                        assert(all[i] == a[i]);
                    } else if q.query.len() > 0 {
                        if i < a.len() {
                            assert(all[i] == a[i]);
                        }
                    } else {
                        assert(all[i] == b[i]);
                    }
                },
                Some(UserInputTypeView::ToolCallResult(r)) => {
                    if superseded_by {
                        if i < a.len() {
                            assert(all[i] == a[i]);
                        }
                    } else {
                        if i < b.len() {
                            assert(all[i] == b[i]);
                        }
                    }
                },
                _ => {
                    if superseded_by {
                        assert(all[i] == a[i]);
                    } else {
                        assert(all[i] == b[i]);
                    }
                },
            }
        }
    }
}

proof fn lemma_query_is_told(inputs: Seq<UserInputView>, k: int)
    requires
        0 <= k < inputs.len(),
        is_query(inputs[k]),
    ensures
        exists|i: int|
            0 <= i < batch_told(inputs, false).len() && (#[trigger] batch_told(
                inputs,
                false,
            )[i]).role == "user"@,
    decreases inputs.len(),
{
    let all = batch_told(inputs, false);
    let shorter = inputs.drop_last();
    if is_query(inputs[inputs.len() - 1]) {
        assert(all[all.len() - 1].role == "user"@);
    } else {
        assert(shorter[k] == inputs[k]);
        lemma_query_is_told(shorter, k);
        let before = batch_told(shorter, false);
        let i = choose|i: int| 0 <= i < before.len() && (#[trigger] before[i]).role == "user"@;
        assert(all[i] == before[i]);
    }
}

/// A request that can be sent goes to the endpoint's completions, with its
/// token, and the reply begins afresh: nothing has been told yet, no call is in
/// flight, and the reply goes to the last task.
pub proof fn law_dispatch_begins_afresh(
    request: RequestView,
    config: ConfigView,
    request_id: Seq<char>,
    message_id: Seq<char>,
)
    requires
        dispatched(request, config, request_id, message_id) is Ok,
    ensures
        ({
            let stream = dispatched(request, config, request_id, message_id)->Ok_0;
            let s = stream.state;
            &&& translated(request, config) == Some(stream.chat_request)
            &&& stream.url == config.base_url + "/chat/completions"@
            &&& stream.api_key == config.api_key
            &&& request.task_context is Some
            &&& request.task_context->0.tasks.len() > 0
            &&& s.task_id == request.task_context->0.tasks.last().id
            &&& s.request_id == request_id
            &&& s.message_id == message_id
            &&& !s.emitted_init
            &&& !s.emitted_placeholder
            &&& !s.finished
            &&& s.pending_init == Some(events::init_event(request, request_id))
            &&& s.calls == Map::<usize, pending::PendingCallView>::empty()
        }),
{
}

/// A request that tells the model nothing from the user's side is refused for
/// want of input. Of the others, those without a task are refused for want of
/// one, and the rest are sent.
pub proof fn law_dispatch_refuses(
    request: RequestView,
    config: ConfigView,
    request_id: Seq<char>,
    message_id: Seq<char>,
)
    ensures
        ({
            let r = dispatched(request, config, request_id, message_id);
            let has_task = match request.task_context {
                Some(context) => context.tasks.len() > 0,
                None => false,
            };
            &&& translated(request, config) is None ==> r == Err::<LocalStreamView, DispatchError>(
                DispatchError::NoUserInput,
            )
            &&& translated(request, config) is Some && !has_task ==> r == Err::<
                LocalStreamView,
                DispatchError,
            >(DispatchError::NoTask)
            &&& translated(request, config) is Some && has_task ==> r is Ok
        }),
{
}

/// The views of dispatches leave nothing out and change nothing: each part is that
/// of the value itself.
pub proof fn law_views_of_dispatches(
    local_stream: LocalStream,
)
    ensures
        local_stream.deep_view().chat_request == local_stream.chat_request.deep_view(),
        local_stream.deep_view().url == local_stream.url@,
        local_stream.deep_view().api_key == local_stream.api_key.deep_view(),
        local_stream.deep_view().state == local_stream.state.deep_view(),
{
}

} // verus!
