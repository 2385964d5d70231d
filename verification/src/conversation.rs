//! The conversation so far, as chat messages.

use vstd::prelude::*;

use crate::agent::Message;
use crate::agent::MessageType;
use crate::agent::MessageTypeView;
use crate::agent::MessageView;
use crate::agent::Request;
use crate::agent::RequestView;
use crate::agent::Task;
use crate::agent::TaskView;
use crate::openai::ChatMessageView;
use crate::openai::OpenAiChatMessage;
use crate::text::same;

verus! {

pub const ROLE_SYSTEM: &'static str = "system";

pub const ROLE_USER: &'static str = "user";

pub const ROLE_ASSISTANT: &'static str = "assistant";

pub const ROLE_TOOL: &'static str = "tool";

// ---- Messages --------------------------------------------------------------

/// A message of plain text.
pub open spec fn text_message(role: Seq<char>, content: Seq<char>) -> ChatMessageView {
    ChatMessageView { role, content: Some(content), tool_call_id: None, tool_calls: None }
}

pub(crate) fn write_text_message(role: &str, content: &str) -> (r: OpenAiChatMessage)
    ensures
        r.deep_view() == text_message(role@, content@),
{
    OpenAiChatMessage {
        role: role.to_string(),
        content: Some(content.to_string()),
        tool_call_id: None,
        tool_calls: None,
    }
}

/// A message of plain text; none where there is no text.
pub open spec fn non_empty_message(role: Seq<char>, content: Seq<char>) -> Option<
    ChatMessageView,
> {
    if content.len() > 0 {
        Some(text_message(role, content))
    } else {
        None
    }
}

pub(crate) fn write_non_empty_message(role: &str, content: &str) -> (r: Option<OpenAiChatMessage>)
    ensures
        r.deep_view() == non_empty_message(role@, content@),
{
    if content.is_empty() {
        None
    } else {
        Some(write_text_message(role, content))
    }
}

/// The message brings something from the user's side: a query, or the result
/// of a tool.
pub open spec fn is_user_facing(m: ChatMessageView) -> bool {
    m.role == ROLE_USER@ || m.role == ROLE_TOOL@
}

/// The assistant's messages do not come from the user's side, and a user's is
/// no tool's.
pub proof fn lemma_roles_differ()
    ensures
        ROLE_ASSISTANT@ != ROLE_USER@,
        ROLE_ASSISTANT@ != ROLE_TOOL@,
        ROLE_USER@ != ROLE_TOOL@,
{
    reveal_strlit("assistant");
    reveal_strlit("user");
    reveal_strlit("tool");
    assert(ROLE_ASSISTANT@.len() == 9);
    assert(ROLE_USER@.len() == 4 && ROLE_TOOL@.len() == 4);
    assert(ROLE_USER@[0] == 'u' && ROLE_TOOL@[0] == 't');
}

/// One of the messages comes from the user's side.
pub open spec fn has_user_input(messages: Seq<ChatMessageView>) -> bool {
    exists|i: int| 0 <= i < messages.len() && is_user_facing(#[trigger] messages[i])
}

pub(crate) fn holds_user_input(messages: &Vec<OpenAiChatMessage>) -> (r: bool)
    ensures
        r == has_user_input(messages.deep_view()),
{
    let ghost all = messages.deep_view();
    let mut i: usize = 0;
    while i < messages.len()
        invariant
            i <= messages@.len(),
            all == messages.deep_view(),
            forall|j: int| 0 <= j < i ==> !is_user_facing(#[trigger] all[j]),
        decreases messages@.len() - i,
    {
        assert(all[i as int] == messages[i as int].deep_view());
        let role: &str = messages[i].role.as_str();
        if same(role, ROLE_USER) || same(role, ROLE_TOOL) {
            assert(is_user_facing(all[i as int]));
            return true;
        }
        i = i + 1;
    }
    false
}

// ---- Walking the history ---------------------------------------------------

/// What `entry` gives for the items, in their order; items for which it gives
/// nothing are left out.
pub open spec fn chosen<A, B>(items: Seq<A>, entry: spec_fn(A) -> Option<B>) -> Seq<B>
    decreases items.len(),
{
    if items.len() == 0 {
        Seq::empty()
    } else {
        match entry(items.last()) {
            Some(b) => chosen(items.drop_last(), entry).push(b),
            None => chosen(items.drop_last(), entry),
        }
    }
}

/// The chat message for a message of the conversation, by what it holds.
pub open spec fn message_entry(
    message: MessageView,
    entry: spec_fn(MessageTypeView) -> Option<ChatMessageView>,
) -> Option<ChatMessageView> {
    match message.message {
        Some(payload) => entry(payload),
        None => None,
    }
}

/// The chat messages for the conversation of one task.
pub open spec fn task_history(
    messages: Seq<MessageView>,
    entry: spec_fn(MessageTypeView) -> Option<ChatMessageView>,
) -> Seq<ChatMessageView> {
    chosen(messages, |m: MessageView| message_entry(m, entry))
}

/// The chat messages for the tasks one after the other.
pub open spec fn tasks_history(
    tasks: Seq<TaskView>,
    entry: spec_fn(MessageTypeView) -> Option<ChatMessageView>,
) -> Seq<ChatMessageView>
    decreases tasks.len(),
{
    if tasks.len() == 0 {
        Seq::empty()
    } else {
        tasks_history(tasks.drop_last(), entry) + task_history(tasks.last().messages, entry)
    }
}

/// The chat messages for the history in a request.
pub open spec fn history(
    request: RequestView,
    entry: spec_fn(MessageTypeView) -> Option<ChatMessageView>,
) -> Seq<ChatMessageView> {
    match request.task_context {
        Some(context) => tasks_history(context.tasks, entry),
        None => Seq::empty(),
    }
}

fn walk_task<F: Fn(&MessageType) -> Option<OpenAiChatMessage>>(
    messages: &Vec<Message>,
    out: &mut Vec<OpenAiChatMessage>,
    read: &F,
    Ghost(entry): Ghost<spec_fn(MessageTypeView) -> Option<ChatMessageView>>,
)
    requires
        forall|m: &MessageType| call_requires(*read, (m,)),
        forall|m: &MessageType, r: Option<OpenAiChatMessage>| #[trigger]
            call_ensures(*read, (m,), r) ==> r.deep_view() == entry(m.deep_view()),
    ensures
        final(out).deep_view() == old(out).deep_view() + task_history(messages.deep_view(), entry),
{
    let ghost all = messages.deep_view();
    let ghost before = out.deep_view();
    let ghost f = |m: MessageView| message_entry(m, entry);
    let mut i: usize = 0;
    proof {
        assert(all.take(0) =~= Seq::empty());
        assert(before + chosen(all.take(0), f) =~= before);
    }
    while i < messages.len()
        invariant
            i <= messages@.len(),
            all == messages.deep_view(),
            f == (|m: MessageView| message_entry(m, entry)),
            forall|m: &MessageType| call_requires(*read, (m,)),
            forall|m: &MessageType, r: Option<OpenAiChatMessage>| #[trigger]
                call_ensures(*read, (m,), r) ==> r.deep_view() == entry(m.deep_view()),
            out.deep_view() == before + chosen(all.take(i as int), f),
        decreases messages@.len() - i,
    {
        let ghost prior = out.deep_view();
        proof {
            assert(all.take(i + 1).drop_last() =~= all.take(i as int));
            assert(all.take(i + 1).last() == messages[i as int].deep_view());
        }
        let entry_found: Option<OpenAiChatMessage> = match &messages[i].message {
            Some(payload) => read(payload),
            None => None,
        };
        assert(entry_found.deep_view() == f(all[i as int]));
        if let Some(m) = entry_found {
            out.push(m);
            assert(out.deep_view() =~= prior.push(m.deep_view()));
        }
        assert(out.deep_view() =~= before + chosen(all.take(i + 1), f));
        i = i + 1;
    }
    assert(all.take(i as int) =~= all);
}

/// Walks the tasks in order, and the messages of each, and collects what
/// `read` makes of them.
pub(crate) fn walk_history<F: Fn(&MessageType) -> Option<OpenAiChatMessage>>(
    request: &Request,
    read: F,
    Ghost(entry): Ghost<spec_fn(MessageTypeView) -> Option<ChatMessageView>>,
) -> (out: Vec<OpenAiChatMessage>)
    requires
        forall|m: &MessageType| call_requires(read, (m,)),
        forall|m: &MessageType, r: Option<OpenAiChatMessage>| #[trigger]
            call_ensures(read, (m,), r) ==> r.deep_view() == entry(m.deep_view()),
    ensures
        out.deep_view() == history(request.deep_view(), entry),
{
    let mut out: Vec<OpenAiChatMessage> = Vec::new();
    assert(out.deep_view() =~= Seq::empty());
    if let Some(context) = &request.task_context {
        let tasks: &Vec<Task> = &context.tasks;
        let ghost all = tasks.deep_view();
        let mut i: usize = 0;
        assert(all.take(0) =~= Seq::empty());
        while i < tasks.len()
            invariant
                i <= tasks@.len(),
                all == tasks.deep_view(),
                forall|m: &MessageType| call_requires(read, (m,)),
                forall|m: &MessageType, r: Option<OpenAiChatMessage>| #[trigger]
                    call_ensures(read, (m,), r) ==> r.deep_view() == entry(m.deep_view()),
                out.deep_view() == tasks_history(all.take(i as int), entry),
            decreases tasks@.len() - i,
        {
            walk_task(&tasks[i].messages, &mut out, &read, Ghost(entry));
            proof {
                assert(all.take(i + 1).drop_last() =~= all.take(i as int));
                assert(all.take(i + 1).last() == tasks[i as int].deep_view());
            }
            i = i + 1;
        }
        assert(all.take(i as int) =~= all);
    }
    out
}

// ---- What was said ---------------------------------------------------------

/// The chat message for a query of the user or a text of the agent.
pub open spec fn query_entry(payload: MessageTypeView) -> Option<ChatMessageView> {
    match payload {
        MessageTypeView::UserQuery(q) => non_empty_message(ROLE_USER@, q.query),
        MessageTypeView::AgentOutput(a) => non_empty_message(ROLE_ASSISTANT@, a.text),
        _ => None,
    }
}

/// Queries stand in the role of the user and the agent's texts in that of the
/// assistant. Empty ones, and all else, are left out.
pub(crate) fn read_query_entry(payload: &MessageType) -> (r: Option<OpenAiChatMessage>)
    ensures
        r.deep_view() == query_entry(payload.deep_view()),
{
    match payload {
        MessageType::UserQuery(q) => write_non_empty_message(ROLE_USER, q.query.as_str()),
        MessageType::AgentOutput(a) => write_non_empty_message(ROLE_ASSISTANT, a.text.as_str()),
        _ => None,
    }
}

/// Where something is chosen for one of the items, the choice is not empty.
pub proof fn lemma_chosen_some<A, B>(items: Seq<A>, entry: spec_fn(A) -> Option<B>, i: int)
    requires
        0 <= i < items.len(),
        entry(items[i]) is Some,
    ensures
        chosen(items, entry).len() > 0,
    decreases items.len(),
{
    if i < items.len() - 1 {
        lemma_chosen_some(items.drop_last(), entry, i);
    }
}

/// Choosing from two lists one after the other gives what is chosen from each.
pub proof fn lemma_chosen_concat<A, B>(a: Seq<A>, b: Seq<A>, entry: spec_fn(A) -> Option<B>)
    ensures
        chosen(a + b, entry) == chosen(a, entry) + chosen(b, entry),
    decreases b.len(),
{
    if b.len() == 0 {
        assert(a + b =~= a);
        assert(chosen(a, entry) + chosen(b, entry) =~= chosen(a, entry));
    } else {
        assert((a + b).drop_last() =~= a + b.drop_last());
        assert((a + b).last() == b.last());
        lemma_chosen_concat(a, b.drop_last(), entry);
        assert(chosen(a + b, entry) =~= chosen(a, entry) + chosen(b, entry));
    }
}

// ---- Laws ------------------------------------------------------------------

/// The conversation of a task is told in order: what some messages come to,
/// followed by what the next ones come to.
pub proof fn law_messages_stay_in_order(
    a: Seq<MessageView>,
    b: Seq<MessageView>,
    entry: spec_fn(MessageTypeView) -> Option<ChatMessageView>,
)
    ensures
        task_history(a + b, entry) == task_history(a, entry) + task_history(b, entry),
{
    lemma_chosen_concat(a, b, |m: MessageView| message_entry(m, entry));
}

/// The tasks are told in order: the conversations of some, followed by those
/// of the next.
pub proof fn law_tasks_stay_in_order(
    a: Seq<TaskView>,
    b: Seq<TaskView>,
    entry: spec_fn(MessageTypeView) -> Option<ChatMessageView>,
)
    ensures
        tasks_history(a + b, entry) == tasks_history(a, entry) + tasks_history(b, entry),
    decreases b.len(),
{
    if b.len() == 0 {
        assert(a + b =~= a);
        assert(tasks_history(a, entry) + tasks_history(b, entry) =~= tasks_history(a, entry));
    } else {
        assert((a + b).drop_last() =~= a + b.drop_last());
        assert((a + b).last() == b.last());
        law_tasks_stay_in_order(a, b.drop_last(), entry);
        assert(tasks_history(a + b, entry) =~= tasks_history(a, entry) + tasks_history(b, entry));
    }
}

} // verus!
