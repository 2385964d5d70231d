//! Requests for a whole reply in one piece, without tools.

use vstd::prelude::*;
use vstd::string::StringExecFns;

use crate::agent::ActionView;
use crate::agent::AddMessagesToTaskView;
use crate::agent::AgentOutputView;
use crate::agent::ClientActionView;
use crate::agent::ClientActionsView;
use crate::agent::EventTypeView;
use crate::agent::FinishReason;
use crate::agent::FinishReasonView;
use crate::agent::InputType;
use crate::agent::InputTypeView;
use crate::agent::InputView;
use crate::agent::InternalErrorView;
use crate::agent::Message;
use crate::agent::MessageTypeView;
use crate::agent::MessageView;
use crate::agent::Request;
use crate::agent::RequestView;
use crate::agent::ResponseEvent;
use crate::agent::ResponseEventView;
use crate::agent::StreamFinishedView;
use crate::agent::TaskView;
use crate::agent::Timestamp;
use crate::agent::UserInput;
use crate::agent::UserInputType;
use crate::agent::UserInputTypeView;
use crate::agent::UserInputView;
use crate::conversation;
use crate::events;
use crate::events::DispatchError;
use crate::layout;
use crate::layout::WrittenItem;
use crate::local_provider;
use crate::local_provider::ConfigView;
use crate::local_provider::LocalEndpointConfig;
use crate::mint;
use crate::openai::ChatMessageView;
use crate::openai::ChatRequestView;
use crate::openai::OpenAiChatMessage;
use crate::openai::OpenAiChatRequest;
use crate::replies;
use crate::replies::OpenAiChatResponse;
use crate::replies::ReplyView;
use crate::text;
use crate::tool_laws;

verus! {

pub const SYSTEM_PROMPT: &'static str =
    "You are an assistant embedded in the Warp terminal. Reply in plain text. \
     Tool-use is not currently supported in local mode.";

// ---- The request -----------------------------------------------------------

/// The query in one input of a batch.
pub open spec fn query_in(input: UserInputView) -> Option<Seq<char>> {
    match input.input {
        Some(UserInputTypeView::UserQuery(q)) => Some(q.query),
        _ => None,
    }
}

/// The last query in a batch.
pub open spec fn last_query(inputs: Seq<UserInputView>) -> Option<Seq<char>>
    decreases inputs.len(),
{
    if inputs.len() == 0 {
        None
    } else {
        match query_in(inputs.last()) {
            Some(q) => Some(q),
            None => last_query(inputs.drop_last()),
        }
    }
}

/// The query in a request's new input.
pub open spec fn latest_query(request: RequestView) -> Option<Seq<char>> {
    match request.input {
        Some(input) => match input.kind {
            Some(InputTypeView::UserInputs(batch)) => last_query(batch.inputs),
            Some(InputTypeView::UserQuery(q)) => Some(q.query),
            _ => None,
        },
        None => None,
    }
}

fn find_last_query(inputs: &Vec<UserInput>) -> (r: Option<String>)
    ensures
        r.deep_view() == last_query(inputs.deep_view()),
{
    let ghost all = inputs.deep_view();
    let mut n: usize = inputs.len();
    assert(all.take(n as int) =~= all);
    while n > 0
        invariant
            n <= inputs@.len(),
            all == inputs.deep_view(),
            last_query(all.take(n as int)) == last_query(all),
        decreases n,
    {
        n = n - 1;
        proof {
            assert(all.take(n + 1).drop_last() =~= all.take(n as int));
            assert(all.take(n + 1).last() == inputs[n as int].deep_view());
        }
        if let Some(UserInputType::UserQuery(q)) = &inputs[n].input {
            return Some(q.query.clone());
        }
    }
    None
}

/// The query in the new input: the last one of a batch, or the one that older
/// clients send in place of a batch.
pub fn extract_latest_user_query(request: &Request) -> (r: Option<String>)
    ensures
        r.deep_view() == latest_query(request.deep_view()),
{
    match &request.input {
        Some(input) => match &input.kind {
            Some(InputType::UserInputs(batch)) => find_last_query(&batch.inputs),
            Some(InputType::UserQuery(q)) => Some(q.query.clone()),
            _ => None,
        },
        None => None,
    }
}

/// All that was said, and the new query.
pub open spec fn dialogue(request: RequestView) -> Seq<ChatMessageView> {
    let past = conversation::history(request, |p: MessageTypeView| conversation::query_entry(p));
    match latest_query(request) {
        Some(query) => if query.len() > 0 {
            past.push(conversation::text_message(conversation::ROLE_USER@, query))
        } else {
            past
        },
        None => past,
    }
}

/// The chat request for an agent's request. There is none where nothing in the
/// dialogue comes from the user's side.
pub open spec fn translated(request: RequestView, config: ConfigView) -> Option<ChatRequestView> {
    if !conversation::has_user_input(dialogue(request)) {
        None
    } else {
        Some(
            ChatRequestView {
                model: config.model,
                messages: seq![
                    conversation::text_message(conversation::ROLE_SYSTEM@, SYSTEM_PROMPT@),
                ] + dialogue(request),
                stream: Some(false),
                tools: None,
            },
        )
    }
}

/// Builds the chat request: the system prompt, what was said in order, and
/// the new query. Returns `None` where nothing comes from the user's side.
pub fn translate_request(request: &Request, config: &LocalEndpointConfig) -> (r: Option<
    OpenAiChatRequest,
>)
    ensures
        r.deep_view() == translated(request.deep_view(), config.deep_view()),
{
    let mut messages: Vec<OpenAiChatMessage> = conversation::walk_history(
        request,
        conversation::read_query_entry,
        Ghost(|p: MessageTypeView| conversation::query_entry(p)),
    );
    let ghost past = messages.deep_view();
    if let Some(query) = extract_latest_user_query(request) {
        if !query.as_str().is_empty() {
            let m: OpenAiChatMessage = conversation::write_text_message(
                conversation::ROLE_USER,
                query.as_str(),
            );
            messages.push(m);
            assert(messages.deep_view() =~= past.push(m.deep_view()));
        }
    }
    assert(messages.deep_view() == dialogue(request.deep_view()));
    if !conversation::holds_user_input(&messages) {
        return None;
    }
    let ghost said = messages.deep_view();
    let prompt: OpenAiChatMessage = conversation::write_text_message(
        conversation::ROLE_SYSTEM,
        SYSTEM_PROMPT,
    );
    messages.insert(0, prompt);
    assert(messages.deep_view() =~= seq![prompt.deep_view()] + said);
    Some(
        OpenAiChatRequest {
            model: config.model.clone(),
            messages,
            stream: Some(false),
            tools: None,
        },
    )
}

// ---- Dispatch --------------------------------------------------------------

/// All that is needed to send a request and to take in the reply.
pub struct LocalExchange {
    /// The body to post, in its JSON form.
    pub chat_request: OpenAiChatRequest,
    pub url: String,
    /// Goes along as bearer token.
    pub api_key: Option<String>,
    /// The event that opens the reply.
    pub init: ResponseEvent,
    pub task_id: String,
    pub request_id: String,
}

/// What [`LocalExchange`] holds.
#[verifier::ext_equal]
pub struct LocalExchangeView {
    pub chat_request: ChatRequestView,
    pub url: Seq<char>,
    pub api_key: Option<Seq<char>>,
    pub init: ResponseEventView,
    pub task_id: Seq<char>,
    pub request_id: Seq<char>,
}

impl DeepView for LocalExchange {
    type V = LocalExchangeView;

    open spec fn deep_view(&self) -> LocalExchangeView {
        LocalExchangeView {
            chat_request: self.chat_request.deep_view(),
            url: self.url@,
            api_key: self.api_key.deep_view(),
            init: self.init.deep_view(),
            task_id: self.task_id@,
            request_id: self.request_id@,
        }
    }
}

/// How a request is dispatched, or why it cannot be.
pub open spec fn dispatched(
    request: RequestView,
    config: ConfigView,
    request_id: Seq<char>,
) -> Result<LocalExchangeView, DispatchError> {
    match (translated(request, config), events::target_task_id(request)) {
        (None, _) => Err(DispatchError::NoUserInput),
        (Some(_), None) => Err(DispatchError::NoTask),
        (Some(chat_request), Some(task_id)) => Ok(
            LocalExchangeView {
                chat_request,
                url: local_provider::completions_url(config.base_url),
                api_key: config.api_key,
                init: events::init_event(request, request_id),
                task_id,
                request_id,
            },
        ),
    }
}

/// Prepares the dispatch of a request under the given id.
pub fn dispatch_local_with(
    request: &Request,
    config: &LocalEndpointConfig,
    request_id: String,
) -> (r: Result<LocalExchange, DispatchError>)
    ensures
        match r {
            Ok(exchange) => dispatched(request.deep_view(), config.deep_view(), request_id@)
                == Ok::<LocalExchangeView, DispatchError>(exchange.deep_view()),
            Err(e) => dispatched(request.deep_view(), config.deep_view(), request_id@) == Err::<
                LocalExchangeView,
                DispatchError,
            >(e),
        },
{
    let chat_request: OpenAiChatRequest = match translate_request(request, config) {
        Some(chat_request) => chat_request,
        None => {
            return Err(DispatchError::NoUserInput);
        },
    };
    let task_id: String = match events::pick_target_task_id(request) {
        Some(task_id) => task_id,
        None => {
            return Err(DispatchError::NoTask);
        },
    };
    let init: ResponseEvent = events::build_init_event(request, request_id.as_str());
    let api_key: Option<String> = match &config.api_key {
        Some(key) => Some(key.clone()),
        None => None,
    };
    Ok(
        LocalExchange {
            chat_request,
            url: config.chat_completions_url(),
            api_key,
            init,
            task_id,
            request_id,
        },
    )
}

/// Prepares the dispatch of a request: what to post, where, and where the
/// reply goes. The reply goes by a fresh id.
pub fn dispatch_local(request: &Request, config: &LocalEndpointConfig) -> (r: Result<
    LocalExchange,
    DispatchError,
>)
    ensures
        match r {
            Ok(exchange) => {
                &&& mint::is_minted_id(exchange.request_id@)
                &&& dispatched(request.deep_view(), config.deep_view(), exchange.request_id@)
                    == Ok::<LocalExchangeView, DispatchError>(exchange.deep_view())
            },
            Err(e) => forall|request_id: Seq<char>| #[trigger]
                dispatched(request.deep_view(), config.deep_view(), request_id) == Err::<
                    LocalExchangeView,
                    DispatchError,
                >(e),
        },
{
    dispatch_local_with(request, config, mint::mint_id())
}

// ---- The reply -------------------------------------------------------------

/// How the exchange with the endpoint went.
#[derive(Debug, Clone, PartialEq, Eq)]
pub enum ExchangeOutcome {
    /// The request could not be sent, for the given cause.
    SendFailed(String),
    /// The body could not be received, for the given cause.
    ReadFailed(String),
    Response(EndpointResponse),
}

/// What the endpoint answered.
#[derive(Debug, Clone, PartialEq, Eq)]
pub struct EndpointResponse {
    /// The status stands for success.
    pub success: bool,
    /// The status in words.
    pub status: String,
    pub body: String,
    /// What is wrong with the body, where it is no reply.
    pub decode_error: String,
}

/// What [`ExchangeOutcome`] holds.
#[verifier::ext_equal]
pub enum OutcomeView {
    SendFailed(Seq<char>),
    ReadFailed(Seq<char>),
    Response(EndpointResponseView),
}

/// What [`EndpointResponse`] holds.
#[verifier::ext_equal]
pub struct EndpointResponseView {
    pub success: bool,
    pub status: Seq<char>,
    pub body: Seq<char>,
    pub decode_error: Seq<char>,
}

impl DeepView for EndpointResponse {
    type V = EndpointResponseView;

    open spec fn deep_view(&self) -> EndpointResponseView {
        EndpointResponseView {
            success: self.success,
            status: self.status@,
            body: self.body@,
            decode_error: self.decode_error@,
        }
    }
}

impl DeepView for ExchangeOutcome {
    type V = OutcomeView;

    open spec fn deep_view(&self) -> OutcomeView {
        match self {
            ExchangeOutcome::SendFailed(cause) => OutcomeView::SendFailed(cause@),
            ExchangeOutcome::ReadFailed(cause) => OutcomeView::ReadFailed(cause@),
            ExchangeOutcome::Response(r) => OutcomeView::Response(r.deep_view()),
        }
    }
}

/// How many bytes of a body a message shows.
pub const SHOWN_BODY: usize = 512;

/// The text of a reply: the content of its first alternative.
pub open spec fn text_in(reply: ReplyView) -> Option<Seq<char>> {
    if reply.choices.len() > 0 {
        reply.choices[0].message.content
    } else {
        None
    }
}

/// The text that a response brings, or what is wrong with it.
pub open spec fn response_text(r: EndpointResponseView) -> Result<Seq<char>, Seq<char>> {
    let shown = text::clipped(r.body, SHOWN_BODY as nat);
    if !r.success {
        Err("local endpoint returned status "@ + r.status + ": "@ + shown)
    } else {
        match replies::reply_in(r.body) {
            None => Err(
                "decoding local endpoint response: "@ + shown + ": "@ + r.decode_error,
            ),
            Some(reply) => match text_in(reply) {
                Some(text) => Ok(text),
                None => Err("local endpoint returned no choices"@),
            },
        }
    }
}

/// The text that an exchange brings, or what went wrong with it.
pub open spec fn exchange_text(outcome: OutcomeView) -> Result<Seq<char>, Seq<char>> {
    match outcome {
        OutcomeView::SendFailed(cause) => Err("POST to local endpoint failed: "@ + cause),
        OutcomeView::ReadFailed(cause) => Err("reading local endpoint response body: "@ + cause),
        OutcomeView::Response(r) => response_text(r),
    }
}

/// The events of a reply. A failure is shown in the reply's place.
pub open spec fn reply_of(
    exchange: LocalExchangeView,
    outcome: OutcomeView,
    message_id: Seq<char>,
    time: Timestamp,
) -> Seq<ResponseEventView> {
    match exchange_text(outcome) {
        Ok(text) => seq![
            exchange.init,
            events::add_messages_event(
                exchange.task_id,
                seq![
                    events::agent_output_message(
                        message_id,
                        exchange.task_id,
                        exchange.request_id,
                        Some(time),
                        text,
                    ),
                ],
            ),
            events::finished_event(FinishReasonView::Done),
        ],
        Err(problem) => seq![
            exchange.init,
            events::failed_event("local endpoint error: "@ + problem),
        ],
    }
}

/// The message with the whole text of a reply, under a fresh id.
pub fn build_agent_output_message(text: String, task_id: String, request_id: String) -> (r: Message)
    ensures
        mint::is_minted_id(r.id@),
        r.timestamp matches Some(time) && mint::is_moment(time),
        r.deep_view() == events::agent_output_message(
            r.id@,
            task_id@,
            request_id@,
            r.timestamp,
            text@,
        ),
{
    events::build_text_message(
        mint::mint_id(),
        task_id,
        request_id,
        Some(mint::now_timestamp()),
        text,
    )
}

fn first_text(reply: &OpenAiChatResponse) -> (r: Option<String>)
    ensures
        r.deep_view() == text_in(reply.deep_view()),
{
    if reply.choices.len() > 0 {
        assert(reply.choices[0].deep_view() == reply.deep_view().choices[0]);
        match &reply.choices[0].message.content {
            Some(text) => Some(text.clone()),
            None => None,
        }
    } else {
        None
    }
}

/// The text that a response brings, or what is wrong with it.
pub fn read_response(response: &EndpointResponse) -> (r: Result<String, String>)
    ensures
        match r {
            Ok(text) => response_text(response.deep_view()) == Ok::<Seq<char>, Seq<char>>(text@),
            Err(problem) => response_text(response.deep_view()) == Err::<Seq<char>, Seq<char>>(
                problem@,
            ),
        },
{
    if !response.success {
        let mut problem = "local endpoint returned status ".to_string();
        problem.append(response.status.as_str());
        problem.append(": ");
        problem.append(text::truncate_for_log(response.body.as_str(), SHOWN_BODY));
        return Err(problem);
    }
    match OpenAiChatResponse::from_json(response.body.as_str()) {
        None => {
            let mut problem = "decoding local endpoint response: ".to_string();
            problem.append(text::truncate_for_log(response.body.as_str(), SHOWN_BODY));
            problem.append(": ");
            problem.append(response.decode_error.as_str());
            Err(problem)
        },
        Some(reply) => match first_text(&reply) {
            Some(text) => Ok(text),
            None => Err("local endpoint returned no choices".to_string()),
        },
    }
}

fn read_outcome(outcome: &ExchangeOutcome) -> (r: Result<String, String>)
    ensures
        match r {
            Ok(text) => exchange_text(outcome.deep_view()) == Ok::<Seq<char>, Seq<char>>(text@),
            Err(problem) => exchange_text(outcome.deep_view()) == Err::<Seq<char>, Seq<char>>(
                problem@,
            ),
        },
{
    match outcome {
        ExchangeOutcome::SendFailed(cause) => {
            let mut problem = "POST to local endpoint failed: ".to_string();
            problem.append(cause.as_str());
            Err(problem)
        },
        ExchangeOutcome::ReadFailed(cause) => {
            let mut problem = "reading local endpoint response body: ".to_string();
            problem.append(cause.as_str());
            Err(problem)
        },
        ExchangeOutcome::Response(r) => read_response(r),
    }
}

/// The events of the reply, whose message is `message`.
fn events_with(init: ResponseEvent, message: Message) -> (r: Vec<ResponseEvent>)
    ensures
        r.deep_view() == seq![
            init.deep_view(),
            events::add_messages_event(message.task_id@, seq![message.deep_view()]),
            events::finished_event(FinishReasonView::Done),
        ],
{
    let task_id: String = message.task_id.clone();
    let messages: Vec<Message> = vec![message];
    assert(messages.deep_view() =~= seq![message.deep_view()]);
    let added: ResponseEvent = events::build_add_messages_event(task_id.as_str(), messages);
    let finished: ResponseEvent = events::build_finished_event(FinishReason::Done);
    let all: Vec<ResponseEvent> = vec![init, added, finished];
    assert(all.deep_view() =~= seq![init.deep_view(), added.deep_view(), finished.deep_view()]);
    all
}

fn failure_with(init: ResponseEvent, problem: &str) -> (r: Vec<ResponseEvent>)
    ensures
        r.deep_view() == seq![
            init.deep_view(),
            events::failed_event("local endpoint error: "@ + problem@),
        ],
{
    let mut message = "local endpoint error: ".to_string();
    message.append(problem);
    let finished: ResponseEvent = events::build_failed_event(message);
    let all: Vec<ResponseEvent> = vec![init, finished];
    assert(all.deep_view() =~= seq![init.deep_view(), finished.deep_view()]);
    all
}

/// The events of the reply, whose message goes by the given id and time.
pub fn reply_events_with(
    exchange: LocalExchange,
    outcome: &ExchangeOutcome,
    message_id: String,
    time: Timestamp,
) -> (r: Vec<ResponseEvent>)
    ensures
        r.deep_view() == reply_of(exchange.deep_view(), outcome.deep_view(), message_id@, time),
{
    match read_outcome(outcome) {
        Ok(text) => {
            let message: Message = events::build_text_message(
                message_id,
                exchange.task_id,
                exchange.request_id,
                Some(time),
                text,
            );
            events_with(exchange.init, message)
        },
        Err(problem) => failure_with(exchange.init, problem.as_str()),
    }
}

/// The events of the reply: it is opened, the whole text is added to the task
/// as one message under a fresh id, and it ends. Where the exchange failed,
/// the end says so.
pub fn reply_events(exchange: LocalExchange, outcome: &ExchangeOutcome) -> (r: Vec<ResponseEvent>)
    ensures
        exists|message_id: Seq<char>, time: Timestamp| #[trigger]
            replied(exchange.deep_view(), outcome.deep_view(), message_id, time, r.deep_view()),
{
    let ghost e = exchange.deep_view();
    let ghost o = outcome.deep_view();
    match read_outcome(outcome) {
        Ok(text) => {
            let message: Message = build_agent_output_message(
                text,
                exchange.task_id,
                exchange.request_id,
            );
            let r: Vec<ResponseEvent> = events_with(exchange.init, message);
            assert(replied(e, o, message.id@, message.timestamp->0, r.deep_view()));
            r
        },
        Err(problem) => {
            let r: Vec<ResponseEvent> = failure_with(exchange.init, problem.as_str());
            assert(replied(e, o, Seq::empty(), arbitrary(), r.deep_view()));
            r
        },
    }
}

/// The events are those of a reply whose message, if it has one, goes by a
/// fresh id.
pub open spec fn replied(
    exchange: LocalExchangeView,
    outcome: OutcomeView,
    message_id: Seq<char>,
    time: Timestamp,
    events: Seq<ResponseEventView>,
) -> bool {
    &&& events == reply_of(exchange, outcome, message_id, time)
    &&& exchange_text(outcome) is Ok ==> mint::is_minted_id(message_id) && mint::is_moment(time)
}

// ---- Laws ------------------------------------------------------------------

/// A chat request starts with the system prompt, asks the configured model
/// for one whole reply, and offers no tools. There is always something behind
/// the prompt, and the new query, where there is one, comes last.
pub proof fn law_request_shape(request: RequestView, config: ConfigView)
    requires
        translated(request, config) is Some,
    ensures
        ({
            let r = translated(request, config)->0;
            &&& r.messages.len() >= 2
            &&& r.messages[0] == conversation::text_message(
                conversation::ROLE_SYSTEM@,
                SYSTEM_PROMPT@,
            )
            &&& r.messages.drop_first() == dialogue(request)
            &&& r.model == config.model
            &&& r.stream == Some(false)
            &&& r.tools is None
            &&& latest_query(request) matches Some(q) ==> (q.len() > 0 ==> r.messages.last()
                == conversation::text_message(conversation::ROLE_USER@, q))
        }),
{
    let r = translated(request, config)->0;
    assert(r.messages.drop_first() =~= dialogue(request));
}

/// A request with a query is always sent.
pub proof fn law_query_is_sent(request: RequestView, config: ConfigView)
    requires
        latest_query(request) matches Some(q) && q.len() > 0,
    ensures
        translated(request, config) is Some,
{
    let d = dialogue(request);
    assert(conversation::is_user_facing(d[d.len() - 1]));
}

/// Where nothing was asked, neither now nor earlier, nothing is sent, whatever
/// the agent may have said.
pub proof fn law_nothing_asked_is_not_sent(request: RequestView, config: ConfigView)
    requires
        forall|i: int|
            0 <= i < dialogue(request).len() ==> (#[trigger] dialogue(request)[i]).role
                == conversation::ROLE_ASSISTANT@,
    ensures
        translated(request, config) is None,
{
    conversation::lemma_roles_differ();
}

/// The query of a batch is the last one in it: whatever comes before it, and
/// all that is no query, makes no difference.
pub proof fn law_last_query_counts(before: Seq<UserInputView>, input: UserInputView)
    ensures
        query_in(input) is Some ==> last_query(before.push(input)) == query_in(input),
        query_in(input) is None ==> last_query(before.push(input)) == last_query(before),
{
    assert(before.push(input).drop_last() =~= before);
}

/// A request is refused for want of input before it is for want of a task,
/// and sent wherever it has both.
pub proof fn law_dispatch_succeeds(
    request: RequestView,
    config: ConfigView,
    request_id: Seq<char>,
)
    ensures
        ({
            let r = dispatched(request, config, request_id);
            &&& r is Ok <==> conversation::has_user_input(dialogue(request))
                && events::target_task_id(request) is Some
            &&& r == Err::<LocalExchangeView, DispatchError>(DispatchError::NoUserInput)
                <==> !conversation::has_user_input(dialogue(request))
            &&& r == Err::<LocalExchangeView, DispatchError>(DispatchError::NoTask)
                <==> conversation::has_user_input(dialogue(request))
                && events::target_task_id(request) is None
        }),
{
}

/// A reply opens and ends: the first event opens it, the last one and no
/// other ends it. It is complete exactly where the exchange brought a text,
/// and that text then stands in one message of the task.
pub proof fn law_reply_shape(
    request: RequestView,
    config: ConfigView,
    request_id: Seq<char>,
    outcome: OutcomeView,
    message_id: Seq<char>,
    time: Timestamp,
)
    requires
        dispatched(request, config, request_id) is Ok,
    ensures
        ({
            let exchange = dispatched(request, config, request_id)->Ok_0;
            let events = reply_of(exchange, outcome, message_id, time);
            &&& events.len() >= 2
            &&& events[0] == events::init_event(request, request_id)
            &&& forall|i: int|
                0 <= i < events.len() ==> (events::is_finished(#[trigger] events[i]) <==> i
                    == events.len() - 1)
            &&& events.last() == events::finished_event(FinishReasonView::Done)
                <==> exchange_text(outcome) is Ok
            &&& exchange_text(outcome) matches Ok(text) ==> events.len() == 3 && events[1]
                == events::add_messages_event(
                exchange.task_id,
                seq![
                    events::agent_output_message(
                        message_id,
                        exchange.task_id,
                        request_id,
                        Some(time),
                        text,
                    ),
                ],
            )
        }),
{
}

// ---- The request, message by message ---------------------------------------

/// What the model is told of one message of the conversation: a query in the
/// role of the user, and the agent's text in that of the assistant. Empty
/// texts, and all else, are left out.
pub open spec fn told(message: MessageView) -> Seq<ChatMessageView> {
    match message.message {
        Some(MessageTypeView::UserQuery(q)) => if q.query.len() > 0 {
            seq![
                ChatMessageView {
                    role: "user"@,
                    content: Some(q.query),
                    tool_call_id: None,
                    tool_calls: None,
                },
            ]
        } else {
            Seq::empty()
        },
        Some(MessageTypeView::AgentOutput(a)) => if a.text.len() > 0 {
            seq![
                ChatMessageView {
                    role: "assistant"@,
                    content: Some(a.text),
                    tool_call_id: None,
                    tool_calls: None,
                },
            ]
        } else {
            Seq::empty()
        },
        _ => Seq::empty(),
    }
}

/// What the model is told of the messages of a task, in their order.
pub open spec fn messages_told(messages: Seq<MessageView>) -> Seq<ChatMessageView>
    decreases messages.len(),
{
    if messages.len() == 0 {
        Seq::empty()
    } else {
        messages_told(messages.drop_last()) + told(messages.last())
    }
}

/// What the model is told of the tasks, in their order.
pub open spec fn tasks_told(tasks: Seq<TaskView>) -> Seq<ChatMessageView>
    decreases tasks.len(),
{
    if tasks.len() == 0 {
        Seq::empty()
    } else {
        tasks_told(tasks.drop_last()) + messages_told(tasks.last().messages)
    }
}

/// All that the model is told behind the prompt: the conversation, and the new
/// query where it says something.
pub open spec fn all_told(request: RequestView) -> Seq<ChatMessageView> {
    (match request.task_context {
        Some(context) => tasks_told(context.tasks),
        None => Seq::empty(),
    }) + match latest_query(request) {
        Some(query) => if query.len() > 0 {
            seq![
                ChatMessageView {
                    role: "user"@,
                    content: Some(query),
                    tool_call_id: None,
                    tool_calls: None,
                },
            ]
        } else {
            Seq::empty()
        },
        None => Seq::empty(),
    }
}

proof fn lemma_messages_told(messages: Seq<MessageView>)
    ensures
        conversation::task_history(messages, |p: MessageTypeView| conversation::query_entry(p))
            == messages_told(messages),
    decreases messages.len(),
{
    let entry = |p: MessageTypeView| conversation::query_entry(p);
    let f = |m: MessageView| conversation::message_entry(m, entry);
    if messages.len() > 0 {
        lemma_messages_told(messages.drop_last());
        let before = messages_told(messages.drop_last());
        match f(messages.last()) {
            Some(m) => {
                assert(told(messages.last()) =~= seq![m]);
                assert(before + seq![m] =~= before.push(m));
            },
            None => {
                assert(told(messages.last()) =~= Seq::empty());
                assert(before + Seq::<ChatMessageView>::empty() =~= before);
            },
        }
    }
}

proof fn lemma_tasks_told(tasks: Seq<TaskView>)
    ensures
        conversation::tasks_history(tasks, |p: MessageTypeView| conversation::query_entry(p))
            == tasks_told(tasks),
    decreases tasks.len(),
{
    if tasks.len() > 0 {
        lemma_tasks_told(tasks.drop_last());
        lemma_messages_told(tasks.last().messages);
    }
}

/// A chat request tells the model what was said, message by message: the system
/// prompt, every query and every text of the agent in order, and the new query,
/// each text as it is. It asks the configured model for one whole reply and
/// offers no tools. There is a request exactly where something in it comes from
/// the user.
pub proof fn law_request_tells_the_conversation(request: RequestView, config: ConfigView)
    ensures
        translated(request, config) is Some <==> exists|i: int|
            0 <= i < all_told(request).len() && (#[trigger] all_told(request)[i]).role == "user"@,
        translated(request, config) matches Some(r) ==> {
            &&& r.messages == seq![
                ChatMessageView {
                    role: "system"@,
                    content: Some(SYSTEM_PROMPT@),
                    tool_call_id: None,
                    tool_calls: None,
                },
            ] + all_told(request)
            &&& r.model == config.model
            &&& r.stream == Some(false)
            &&& r.tools is None
        },
{
    match request.task_context {
        Some(context) => lemma_tasks_told(context.tasks),
        None => {},
    }
    let d = dialogue(request);
    let all = all_told(request);
    assert(d =~= all);
    lemma_told_roles(request);
    if translated(request, config) is Some {
        let i = choose|i: int| 0 <= i < d.len() && conversation::is_user_facing(#[trigger] d[i]);
        assert(all[i].role == "user"@);
    }
    if exists|i: int| 0 <= i < all.len() && (#[trigger] all[i]).role == "user"@ {
        let i = choose|i: int| 0 <= i < all.len() && (#[trigger] all[i]).role == "user"@;
        assert(conversation::is_user_facing(d[i]));
    }
}

/// No message is a tool's.
proof fn lemma_told_roles(request: RequestView)
    ensures
        forall|i: int|
            0 <= i < all_told(request).len() ==> (#[trigger] all_told(request)[i]).role
                != conversation::ROLE_TOOL@,
{
    conversation::lemma_roles_differ();
    if let Some(context) = request.task_context {
        lemma_tasks_roles(context.tasks);
    }
}

proof fn lemma_tasks_roles(tasks: Seq<TaskView>)
    ensures
        forall|i: int|
            0 <= i < tasks_told(tasks).len() ==> (#[trigger] tasks_told(tasks)[i]).role
                != conversation::ROLE_TOOL@,
    decreases tasks.len(),
{
    if tasks.len() > 0 {
        lemma_tasks_roles(tasks.drop_last());
        lemma_messages_roles(tasks.last().messages);
    }
}

proof fn lemma_messages_roles(messages: Seq<MessageView>)
    ensures
        forall|i: int|
            0 <= i < messages_told(messages).len() ==> (#[trigger] messages_told(messages)[i]).role
                != conversation::ROLE_TOOL@,
    decreases messages.len(),
{
    conversation::lemma_roles_differ();
    if messages.len() > 0 {
        lemma_messages_roles(messages.drop_last());
    }
}

/// The new query is the last one in a batch, as it is, or the one that older
/// clients send in place of a batch. There is none in any other input.
pub proof fn law_new_query_is_the_last(request: RequestView)
    ensures
        match request.input {
            Some(InputView { kind: Some(InputTypeView::UserInputs(batch)) }) => {
                &&& forall|i: int|
                    #![trigger batch.inputs[i]]
                    0 <= i < batch.inputs.len() && (forall|j: int|
                        i < j < batch.inputs.len() ==> !((
                        #[trigger] batch.inputs[j]).input matches Some(
                            UserInputTypeView::UserQuery(_),
                        ))) ==> (batch.inputs[i].input matches Some(UserInputTypeView::UserQuery(q))
                        ==> latest_query(request) == Some(q.query))
                &&& (forall|j: int|
                    0 <= j < batch.inputs.len() ==> !((
                    #[trigger] batch.inputs[j]).input matches Some(
                        UserInputTypeView::UserQuery(_),
                    ))) ==> latest_query(request) is None
            },
            Some(InputView { kind: Some(InputTypeView::UserQuery(q)) }) => latest_query(request)
                == Some(q.query),
            _ => latest_query(request) is None,
        },
{
    if let Some(input) = request.input {
        if let Some(InputTypeView::UserInputs(batch)) = input.kind {
            let inputs = batch.inputs;
            assert forall|i: int|
                #![trigger inputs[i]]
                0 <= i < inputs.len() && (forall|j: int|
                    i < j < inputs.len() ==> !((#[trigger] inputs[j]).input matches Some(
                        UserInputTypeView::UserQuery(_),
                    ))) implies (inputs[i].input matches Some(UserInputTypeView::UserQuery(q))
                ==> last_query(inputs) == Some(q.query)) by {
                lemma_last_query_from(inputs, i);
                lemma_last_query_at(inputs, i);
            }
            if forall|j: int|
                0 <= j < inputs.len() ==> !((#[trigger] inputs[j]).input matches Some(
                    UserInputTypeView::UserQuery(_),
                )) {
                lemma_last_query_from(inputs, -1);
                assert(inputs.take(0) =~= Seq::empty());
            }
        }
    }
}

proof fn lemma_last_query_at(inputs: Seq<UserInputView>, i: int)
    requires
        0 <= i < inputs.len(),
    ensures
        inputs[i].input matches Some(UserInputTypeView::UserQuery(q)) ==> last_query(
            inputs.take(i + 1),
        ) == Some(q.query),
{
    assert(inputs.take(i + 1).last() == inputs[i]);
}

/// What is behind the last query makes no difference.
proof fn lemma_last_query_from(inputs: Seq<UserInputView>, i: int)
    requires
        -1 <= i < inputs.len(),
        forall|j: int|
            i < j < inputs.len() ==> !((#[trigger] inputs[j]).input matches Some(
                UserInputTypeView::UserQuery(_),
            )),
    ensures
        last_query(inputs) == last_query(inputs.take(i + 1)),
    decreases inputs.len(),
{
    if i + 1 < inputs.len() {
        let shorter = inputs.drop_last();
        let n = inputs.len() - 1;
        assert(!(inputs[n].input matches Some(UserInputTypeView::UserQuery(_))));
        assert forall|j: int| i < j < shorter.len() implies !((
        #[trigger] shorter[j]).input matches Some(UserInputTypeView::UserQuery(_))) by {
            assert(shorter[j] == inputs[j]);
        }
        lemma_last_query_from(shorter, i);
        assert(shorter.take(i + 1) =~= inputs.take(i + 1));
    } else {
        assert(inputs.take(i + 1) =~= inputs);
    }
}

// ---- The reply, event by event ---------------------------------------------

/// What an exchange brings. A successful response with a reply brings the
/// content of the reply's first alternative, as it is and whatever the length
/// of the body. All else brings a failure that says what went wrong, and shows
/// the first bytes of the body where there is one.
pub proof fn law_exchange_brings_the_reply(outcome: OutcomeView)
    ensures
        match outcome {
            OutcomeView::Response(r) => if r.success {
                let read = replies::reply_in(r.body);
                match read {
                    Some(reply) => if reply.choices.len() > 0
                        && reply.choices[0].message.content is Some {
                        exchange_text(outcome) == Ok::<Seq<char>, Seq<char>>(
                            reply.choices[0].message.content->0,
                        )
                    } else {
                        exchange_text(outcome) == Err::<Seq<char>, Seq<char>>(
                            "local endpoint returned no choices"@,
                        )
                    },
                    None => exchange_text(outcome) == Err::<Seq<char>, Seq<char>>(
                        "decoding local endpoint response: "@ + text::clipped(r.body, 512) + ": "@
                            + r.decode_error,
                    ),
                }
            } else {
                exchange_text(outcome) == Err::<Seq<char>, Seq<char>>(
                    "local endpoint returned status "@ + r.status + ": "@ + text::clipped(
                        r.body,
                        512,
                    ),
                )
            },
            OutcomeView::SendFailed(cause) => exchange_text(outcome) == Err::<
                Seq<char>,
                Seq<char>,
            >("POST to local endpoint failed: "@ + cause),
            OutcomeView::ReadFailed(cause) => exchange_text(outcome) == Err::<
                Seq<char>,
                Seq<char>,
            >("reading local endpoint response body: "@ + cause),
        },
{
}

/// A reply that the endpoint wrote as JSON comes to the user as it was written,
/// whatever its length and its layout: one message of the task with the content
/// of the first alternative.
pub proof fn law_written_reply_is_shown(
    exchange: LocalExchangeView,
    r: EndpointResponseView,
    item: WrittenItem,
    message_id: Seq<char>,
    time: Timestamp,
)
    requires
        r.success,
        r.body == layout::item_text(item),
        layout::well_spaced_item(item),
        tool_laws::is_proper(layout::plain(item.value)),
        replies::reply_meant(layout::plain(item.value)) is Some,
        replies::reply_meant(layout::plain(item.value))->0.choices.len() > 0,
        replies::reply_meant(layout::plain(item.value))->0.choices[0].message.content is Some,
    ensures
        ({
            let content = replies::reply_meant(
                layout::plain(item.value),
            )->0.choices[0].message.content->0;
            let log = reply_of(exchange, OutcomeView::Response(r), message_id, time);
            &&& log.len() == 3
            &&& log[0] == exchange.init
            &&& log[1].kind == Some(
                EventTypeView::ClientActions(
                    ClientActionsView {
                        actions: seq![
                            ClientActionView {
                                action: Some(
                                    ActionView::AddMessagesToTask(
                                        AddMessagesToTaskView {
                                            task_id: exchange.task_id,
                                            messages: seq![
                                                MessageView {
                                                    id: message_id,
                                                    task_id: exchange.task_id,
                                                    request_id: exchange.request_id,
                                                    server_message_data: Seq::empty(),
                                                    citations: Seq::empty(),
                                                    timestamp: Some(time),
                                                    message: Some(
                                                        MessageTypeView::AgentOutput(
                                                            AgentOutputView { text: content },
                                                        ),
                                                    ),
                                                },
                                            ],
                                        },
                                    ),
                                ),
                            },
                        ],
                    },
                ),
            )
            &&& log[2].kind == Some(
                EventTypeView::Finished(
                    StreamFinishedView {
                        reason: Some(FinishReasonView::Done),
                        should_refresh_model_config: false,
                    },
                ),
            )
        }),
{
    replies::law_reply_is_what_it_says(item);
    law_exchange_brings_the_reply(OutcomeView::Response(r));
}

/// An exchange that brings a text is shown as one message of the task with that
/// text, between the opening and the end; one that fails is shown as an end
/// that says why, and adds nothing to the task.
pub proof fn law_reply_is_shown(
    exchange: LocalExchangeView,
    outcome: OutcomeView,
    message_id: Seq<char>,
    time: Timestamp,
)
    ensures
        ({
            let log = reply_of(exchange, outcome, message_id, time);
            match exchange_text(outcome) {
                Ok(text) => {
                    &&& log.len() == 3
                    &&& log[0] == exchange.init
                    &&& log[1].kind == Some(
                        EventTypeView::ClientActions(
                            ClientActionsView {
                                actions: seq![
                                    ClientActionView {
                                        action: Some(
                                            ActionView::AddMessagesToTask(
                                                AddMessagesToTaskView {
                                                    task_id: exchange.task_id,
                                                    messages: seq![
                                                        MessageView {
                                                            id: message_id,
                                                            task_id: exchange.task_id,
                                                            request_id: exchange.request_id,
                                                            server_message_data: Seq::empty(),
                                                            citations: Seq::empty(),
                                                            timestamp: Some(time),
                                                            message: Some(
                                                                MessageTypeView::AgentOutput(
                                                                    AgentOutputView { text },
                                                                ),
                                                            ),
                                                        },
                                                    ],
                                                },
                                            ),
                                        ),
                                    },
                                ],
                            },
                        ),
                    )
                    &&& log[2].kind == Some(
                        EventTypeView::Finished(
                            StreamFinishedView {
                                reason: Some(FinishReasonView::Done),
                                should_refresh_model_config: false,
                            },
                        ),
                    )
                },
                Err(problem) => {
                    &&& log.len() == 2
                    &&& log[0] == exchange.init
                    &&& log[1].kind == Some(
                        EventTypeView::Finished(
                            StreamFinishedView {
                                reason: Some(
                                    FinishReasonView::InternalError(
                                        InternalErrorView {
                                            message: "local endpoint error: "@ + problem,
                                        },
                                    ),
                                ),
                                should_refresh_model_config: false,
                            },
                        ),
                    )
                },
            }
        }),
{
}

/// A request that can be sent goes to the endpoint's completions, with its
/// token, and its reply goes to the last task.
pub proof fn law_dispatch_goes_to_the_endpoint(
    request: RequestView,
    config: ConfigView,
    request_id: Seq<char>,
)
    requires
        dispatched(request, config, request_id) is Ok,
    ensures
        ({
            let exchange = dispatched(request, config, request_id)->Ok_0;
            &&& translated(request, config) == Some(exchange.chat_request)
            &&& exchange.url == config.base_url + "/chat/completions"@
            &&& exchange.api_key == config.api_key
            &&& exchange.init == events::init_event(request, request_id)
            &&& request.task_context is Some
            &&& request.task_context->0.tasks.len() > 0
            &&& exchange.task_id == request.task_context->0.tasks.last().id
            &&& exchange.request_id == request_id
        }),
{
}

/// A request that tells the model nothing from the user's side is refused for
/// want of input. Of the others, those without a task are refused for want of
/// one, and the rest are sent.
pub proof fn law_dispatch_refuses(
    request: RequestView,
    config: ConfigView,
    request_id: Seq<char>,
)
    ensures
        ({
            let r = dispatched(request, config, request_id);
            let has_task = match request.task_context {
                Some(context) => context.tasks.len() > 0,
                None => false,
            };
            &&& translated(request, config) is None ==> r == Err::<
                LocalExchangeView,
                DispatchError,
            >(DispatchError::NoUserInput)
            &&& translated(request, config) is Some && !has_task ==> r == Err::<
                LocalExchangeView,
                DispatchError,
            >(DispatchError::NoTask)
            &&& translated(request, config) is Some && has_task ==> r is Ok
        }),
{
}

/// A reply under a fresh id is a reply under some id: its events are those that
/// the exchange brings.
pub proof fn law_fresh_id_changes_nothing_else(
    exchange: LocalExchangeView,
    outcome: OutcomeView,
    message_id: Seq<char>,
    time: Timestamp,
    events: Seq<ResponseEventView>,
)
    requires
        replied(exchange, outcome, message_id, time, events),
    ensures
        events == reply_of(exchange, outcome, message_id, time),
        exchange_text(outcome) is Ok ==> mint::is_minted_id(message_id) && mint::is_moment(time),
{
}

/// The views of exchanges leave nothing out and change nothing: each part is that
/// of the value itself.
pub proof fn law_views_of_exchanges(
    local_exchange: LocalExchange,
    endpoint_response: EndpointResponse,
    exchange_outcome: ExchangeOutcome,
)
    ensures
        local_exchange.deep_view().chat_request == local_exchange.chat_request.deep_view(),
        local_exchange.deep_view().url == local_exchange.url@,
        local_exchange.deep_view().api_key == local_exchange.api_key.deep_view(),
        local_exchange.deep_view().init == local_exchange.init.deep_view(),
        local_exchange.deep_view().task_id == local_exchange.task_id@,
        local_exchange.deep_view().request_id == local_exchange.request_id@,
        endpoint_response.deep_view().success == endpoint_response.success,
        endpoint_response.deep_view().status == endpoint_response.status@,
        endpoint_response.deep_view().body == endpoint_response.body@,
        endpoint_response.deep_view().decode_error == endpoint_response.decode_error@,
        exchange_outcome matches ExchangeOutcome::SendFailed(cause)
            ==> exchange_outcome.deep_view() == OutcomeView::SendFailed(cause@),
        exchange_outcome matches ExchangeOutcome::ReadFailed(cause)
            ==> exchange_outcome.deep_view() == OutcomeView::ReadFailed(cause@),
        exchange_outcome matches ExchangeOutcome::Response(r)
            ==> exchange_outcome.deep_view() == OutcomeView::Response(r.deep_view()),
{
}

} // verus!
