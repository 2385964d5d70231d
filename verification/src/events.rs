//! The events of a reply, and where the reply goes.

use vstd::prelude::*;

use crate::agent::Action;
use crate::agent::ActionView;
use crate::agent::AddMessagesToTask;
use crate::agent::AddMessagesToTaskView;
use crate::agent::AgentOutput;
use crate::agent::AgentOutputView;
use crate::agent::ClientAction;
use crate::agent::ClientActionView;
use crate::agent::ClientActions;
use crate::agent::ClientActionsView;
use crate::agent::EventType;
use crate::agent::EventTypeView;
use crate::agent::FinishReason;
use crate::agent::FinishReasonView;
use crate::agent::InternalError;
use crate::agent::InternalErrorView;
use crate::agent::Message;
use crate::agent::MessageType;
use crate::agent::MessageTypeView;
use crate::agent::MessageView;
use crate::agent::Request;
use crate::agent::RequestView;
use crate::agent::ResponseEvent;
use crate::agent::ResponseEventView;
use crate::agent::StreamFinished;
use crate::agent::StreamFinishedView;
use crate::agent::StreamInit;
use crate::agent::StreamInitView;
use crate::agent::Timestamp;
use crate::mint;

verus! {

// ---- Where the reply goes --------------------------------------------------

/// The task that the reply belongs to: the last one of the request.
pub open spec fn target_task_id(request: RequestView) -> Option<Seq<char>> {
    match request.task_context {
        Some(context) => if context.tasks.len() > 0 {
            Some(context.tasks.last().id)
        } else {
            None
        },
        None => None,
    }
}

/// Picks the task that the reply is appended to: the last one. Returns `None`
/// where the request has no tasks.
pub fn pick_target_task_id(request: &Request) -> (r: Option<String>)
    ensures
        r.deep_view() == target_task_id(request.deep_view()),
{
    match &request.task_context {
        Some(context) => if context.tasks.len() > 0 {
            Some(context.tasks[context.tasks.len() - 1].id.clone())
        } else {
            None
        },
        None => None,
    }
}

// ---- Events ----------------------------------------------------------------

/// An event with a single action.
pub open spec fn action_event(action: ActionView) -> ResponseEventView {
    ResponseEventView {
        kind: Some(
            EventTypeView::ClientActions(
                ClientActionsView { actions: seq![ClientActionView { action: Some(action) }] },
            ),
        ),
    }
}

pub fn wrap_action(action: Action) -> (r: ResponseEvent)
    ensures
        r.deep_view() == action_event(action.deep_view()),
{
    let actions: Vec<ClientAction> = vec![ClientAction { action: Some(action) }];
    assert(actions.deep_view() =~= seq![ClientActionView { action: Some(action.deep_view()) }]);
    ResponseEvent { kind: Some(EventType::ClientActions(ClientActions { actions })) }
}

/// The id of the request's conversation; empty where it is not known.
pub open spec fn conversation_id_of(request: RequestView) -> Seq<char> {
    match request.metadata {
        Some(metadata) => metadata.conversation_id,
        None => Seq::empty(),
    }
}

/// The event that opens a reply.
pub open spec fn init_event(request: RequestView, request_id: Seq<char>) -> ResponseEventView {
    ResponseEventView {
        kind: Some(
            EventTypeView::Init(
                StreamInitView {
                    request_id,
                    conversation_id: conversation_id_of(request),
                    run_id: Seq::empty(),
                },
            ),
        ),
    }
}

pub fn build_init_event(request: &Request, request_id: &str) -> (r: ResponseEvent)
    ensures
        r.deep_view() == init_event(request.deep_view(), request_id@),
{
    let conversation_id: String = match &request.metadata {
        Some(metadata) => metadata.conversation_id.clone(),
        None => String::new(),
    };
    ResponseEvent {
        kind: Some(
            EventType::Init(
                StreamInit {
                    request_id: request_id.to_string(),
                    conversation_id,
                    run_id: String::new(),
                },
            ),
        ),
    }
}

/// The event that ends a reply.
pub open spec fn finished_event(reason: FinishReasonView) -> ResponseEventView {
    ResponseEventView {
        kind: Some(
            EventTypeView::Finished(
                StreamFinishedView { reason: Some(reason), should_refresh_model_config: false },
            ),
        ),
    }
}

pub fn build_finished_event(reason: FinishReason) -> (r: ResponseEvent)
    ensures
        r.deep_view() == finished_event(reason.deep_view()),
{
    ResponseEvent {
        kind: Some(
            EventType::Finished(
                StreamFinished { reason: Some(reason), should_refresh_model_config: false },
            ),
        ),
    }
}

/// The event that ends a reply in failure.
pub open spec fn failed_event(message: Seq<char>) -> ResponseEventView {
    finished_event(FinishReasonView::InternalError(InternalErrorView { message }))
}

pub(crate) fn build_failed_event(message: String) -> (r: ResponseEvent)
    ensures
        r.deep_view() == failed_event(message@),
{
    build_finished_event(FinishReason::InternalError(InternalError { message }))
}

/// The event that adds messages to a task.
pub open spec fn add_messages_event(
    task_id: Seq<char>,
    messages: Seq<MessageView>,
) -> ResponseEventView {
    action_event(ActionView::AddMessagesToTask(AddMessagesToTaskView { task_id, messages }))
}

pub(crate) fn build_add_messages_event(task_id: &str, messages: Vec<Message>) -> (r: ResponseEvent)
    ensures
        r.deep_view() == add_messages_event(task_id@, messages.deep_view()),
{
    wrap_action(
        Action::AddMessagesToTask(AddMessagesToTask { task_id: task_id.to_string(), messages }),
    )
}

/// A message with the agent's text.
pub open spec fn agent_output_message(
    id: Seq<char>,
    task_id: Seq<char>,
    request_id: Seq<char>,
    timestamp: Option<Timestamp>,
    text: Seq<char>,
) -> MessageView {
    MessageView {
        id,
        task_id,
        request_id,
        server_message_data: Seq::empty(),
        citations: Seq::empty(),
        timestamp,
        message: Some(MessageTypeView::AgentOutput(AgentOutputView { text })),
    }
}

pub(crate) fn build_text_message(
    id: String,
    task_id: String,
    request_id: String,
    timestamp: Option<Timestamp>,
    text: String,
) -> (r: Message)
    ensures
        r.deep_view() == agent_output_message(id@, task_id@, request_id@, timestamp, text@),
{
    let citations: Vec<String> = Vec::new();
    assert(citations.deep_view() =~= Seq::empty());
    Message {
        id,
        task_id,
        request_id,
        server_message_data: String::new(),
        citations,
        timestamp,
        message: Some(MessageType::AgentOutput(AgentOutput { text })),
    }
}

/// The event opens a reply.
pub open spec fn is_init(e: ResponseEventView) -> bool {
    e.kind matches Some(EventTypeView::Init(_))
}

/// The event ends a reply.
pub open spec fn is_finished(e: ResponseEventView) -> bool {
    e.kind matches Some(EventTypeView::Finished(_))
}

// ---- Refusals --------------------------------------------------------------

/// Why a request cannot be sent to the endpoint.
#[derive(Debug, Clone, Copy, PartialEq, Eq, Structural)]
pub enum DispatchError {
    /// There is nothing to send.
    NoUserInput,
    /// There is no task that the reply could go to.
    NoTask,
}

/// What is said of a refusal.
pub open spec fn refusal_text(error: DispatchError) -> Seq<char> {
    match error {
        DispatchError::NoUserInput => "no user input found to send to local endpoint"@,
        DispatchError::NoTask => "local mode requires at least one task in task_context"@,
    }
}

impl DispatchError {
    pub fn message(&self) -> (r: String)
        ensures
            r@ == refusal_text(*self),
    {
        match self {
            DispatchError::NoUserInput => {
                "no user input found to send to local endpoint".to_string()
            },
            DispatchError::NoTask => {
                "local mode requires at least one task in task_context".to_string()
            },
        }
    }

    /// The event that shows the refusal to the user.
    pub fn event(&self) -> (r: ResponseEvent)
        ensures
            r.deep_view() == failed_event(refusal_text(*self)),
    {
        build_failed_event(self.message())
    }
}

/// How a refused request is answered. One without input is an error for the
/// caller, who may send it elsewhere. One without a task is answered by a reply
/// that opens and ends in failure.
pub open spec fn refusal_answer(
    error: DispatchError,
    request: RequestView,
    request_id: Seq<char>,
) -> Option<Seq<ResponseEventView>> {
    match error {
        DispatchError::NoUserInput => None,
        DispatchError::NoTask => Some(
            seq![init_event(request, request_id), failed_event(refusal_text(error))],
        ),
    }
}

/// The events that answer a refused request, under the given id; none where
/// the refusal is an error for the caller.
pub fn refusal_events(error: DispatchError, request: &Request, request_id: &str) -> (r: Option<
    Vec<ResponseEvent>,
>)
    ensures
        r.deep_view() == refusal_answer(error, request.deep_view(), request_id@),
{
    match error {
        DispatchError::NoUserInput => None,
        DispatchError::NoTask => {
            let init: ResponseEvent = build_init_event(request, request_id);
            let failed: ResponseEvent = error.event();
            let all: Vec<ResponseEvent> = vec![init, failed];
            assert(all.deep_view() =~= seq![init.deep_view(), failed.deep_view()]);
            Some(all)
        },
    }
}

/// The events that answer a refused request, under a fresh id; none where the
/// refusal is an error for the caller.
pub fn answer_refusal(error: DispatchError, request: &Request) -> (r: Option<Vec<ResponseEvent>>)
    ensures
        exists|request_id: Seq<char>|
            mint::is_minted_id(request_id) && r.deep_view() == #[trigger] refusal_answer(
                error,
                request.deep_view(),
                request_id,
            ),
{
    let request_id: String = mint::mint_id();
    refusal_events(error, request, request_id.as_str())
}

/// A request without a task is answered by a reply that opens and ends in
/// failure, and adds nothing to any task. One without input is not answered.
pub proof fn law_refusal_answer(
    error: DispatchError,
    request: RequestView,
    request_id: Seq<char>,
)
    ensures
        refusal_answer(error, request, request_id) is None <==> error
            == DispatchError::NoUserInput,
        refusal_answer(error, request, request_id) matches Some(log) ==> {
            &&& log.len() == 2
            &&& is_init(log[0])
            &&& log[1] == failed_event(refusal_text(error))
            &&& is_finished(log[1])
        },
{
}

// ---- Laws ------------------------------------------------------------------

/// A reply goes to the last task of the request, and to none where the request
/// has none.
pub proof fn law_reply_goes_to_the_last_task(request: RequestView)
    ensures
        match request.task_context {
            Some(context) => {
                &&& context.tasks.len() == 0 ==> target_task_id(request) is None
                &&& context.tasks.len() > 0 ==> target_task_id(request) == Some(
                    context.tasks[context.tasks.len() - 1].id,
                )
            },
            None => target_task_id(request) is None,
        },
{
}

/// The event that opens a reply carries the id of the reply's request and that
/// of the conversation, where it is known, and no run.
pub proof fn law_opening_event(request: RequestView, request_id: Seq<char>)
    ensures
        init_event(request, request_id).kind matches Some(EventTypeView::Init(init)) && {
            &&& init.request_id == request_id
            &&& request.metadata matches Some(metadata) ==> init.conversation_id
                == metadata.conversation_id
            &&& request.metadata is None ==> init.conversation_id.len() == 0
            &&& init.run_id.len() == 0
        },
{
}

/// An event that ends a reply gives the reason and asks for no other
/// configuration. One that ends it in failure says what went wrong.
pub proof fn law_ending_event(reason: FinishReasonView, message: Seq<char>)
    ensures
        finished_event(reason).kind == Some(
            EventTypeView::Finished(
                StreamFinishedView { reason: Some(reason), should_refresh_model_config: false },
            ),
        ),
        failed_event(message).kind == Some(
            EventTypeView::Finished(
                StreamFinishedView {
                    reason: Some(FinishReasonView::InternalError(InternalErrorView { message })),
                    should_refresh_model_config: false,
                },
            ),
        ),
{
}

/// An event that adds messages to a task adds those messages to that task, and
/// does nothing else.
pub proof fn law_adding_event(task_id: Seq<char>, messages: Seq<MessageView>)
    ensures
        add_messages_event(task_id, messages).kind matches Some(
            EventTypeView::ClientActions(done),
        ) && done.actions.len() == 1 && done.actions[0].action == Some(
            ActionView::AddMessagesToTask(AddMessagesToTaskView { task_id, messages }),
        ),
{
}

/// A message with the agent's text has that text, and the ids and the time that
/// it was given.
pub proof fn law_text_message(
    id: Seq<char>,
    task_id: Seq<char>,
    request_id: Seq<char>,
    timestamp: Option<Timestamp>,
    text: Seq<char>,
)
    ensures
        ({
            let m = agent_output_message(id, task_id, request_id, timestamp, text);
            &&& m.id == id
            &&& m.task_id == task_id
            &&& m.request_id == request_id
            &&& m.timestamp == timestamp
            &&& m.server_message_data.len() == 0
            &&& m.citations.len() == 0
            &&& m.message == Some(MessageTypeView::AgentOutput(AgentOutputView { text }))
        }),
{
}

/// A refused request without a task is told why in the event that ends the
/// reply.
pub proof fn law_refusal_says_why(request: RequestView, request_id: Seq<char>)
    ensures
        refusal_answer(DispatchError::NoUserInput, request, request_id) is None,
        refusal_answer(DispatchError::NoTask, request, request_id) matches Some(log) && {
            &&& log.len() == 2
            &&& log[0] == init_event(request, request_id)
            &&& log[1].kind == Some(
                EventTypeView::Finished(
                    StreamFinishedView {
                        reason: Some(
                            FinishReasonView::InternalError(
                                InternalErrorView {
                                    message:
                                        "local mode requires at least one task in task_context"@,
                                },
                            ),
                        ),
                        should_refresh_model_config: false,
                    },
                ),
            )
        },
{
}

/// A refusal is told in words.
pub proof fn law_refusal_in_words()
    ensures
        refusal_text(DispatchError::NoUserInput)
            == "no user input found to send to local endpoint"@,
        refusal_text(DispatchError::NoTask)
            == "local mode requires at least one task in task_context"@,
{
}

} // verus!
