//! What holds of a streamed reply as a whole, whatever the endpoint sends.

use vstd::prelude::*;

use crate::agent::ActionView;
use crate::agent::AddMessagesToTaskView;
use crate::agent::AgentOutputView;
use crate::agent::AppendToMessageContentView;
use crate::agent::ClientActionView;
use crate::agent::ClientActionsView;
use crate::agent::EventTypeView;
use crate::agent::FieldMaskView;
use crate::agent::FinishReasonView;
use crate::agent::InternalErrorView;
use crate::agent::MessageTypeView;
use crate::agent::MessageView;
use crate::agent::RequestView;
use crate::agent::ResponseEventView;
use crate::agent::StreamFinishedView;
use crate::agent::Timestamp;
use crate::agent::ToolCallView;
use crate::conversation;
use crate::events;
use crate::json;
use crate::layout;
use crate::layout::WrittenItem;
use crate::local_dispatch;
use crate::mint;
use crate::pending;
use crate::pending::PendingCallView;
use crate::pending::PendingCalls;
use crate::record;
use crate::replies;
use crate::replies::ChoiceView;
use crate::replies::ChunkView;
use crate::replies::ToolCallDeltaView;
use crate::streaming;
use crate::streaming::CallStampView;
use crate::streaming::FrameDataView;
use crate::streaming::FrameView;
use crate::streaming::StampsView;
use crate::streaming::StateView;
use crate::streaming::Step;
use crate::text;
use crate::tools;

verus! {

// ---- A reply from its first frame on ---------------------------------------

/// A frame, and the ids and times that it is taken in with.
pub struct Tick {
    pub frame: FrameView,
    pub stamps: StampsView,
}

/// What the frames bring one after the other. Once the reply has ended, no
/// more are taken in.
pub open spec fn run(s: StateView, ticks: Seq<Tick>) -> Step
    decreases ticks.len(),
{
    if ticks.len() == 0 {
        streaming::stay(s)
    } else {
        let before = run(s, ticks.drop_last());
        if before.state.finished {
            before
        } else {
            let next = streaming::after_frame(
                before.state,
                ticks.last().frame,
                ticks.last().stamps,
            );
            Step { state: next.state, events: before.events + next.events }
        }
    }
}

/// The event adds the empty message that the text of the reply goes to.
pub open spec fn is_placeholder(s: StateView, e: ResponseEventView) -> bool {
    exists|time: Timestamp| e == #[trigger] streaming::placeholder_event(s, time)
}

/// The action of an event that has one.
pub open spec fn action_of(e: ResponseEventView) -> Option<ActionView> {
    match e.kind {
        Some(EventTypeView::ClientActions(a)) => if a.actions.len() == 1 {
            a.actions[0].action
        } else {
            None
        },
        _ => None,
    }
}

/// The event appends text to a message.
pub open spec fn is_append(e: ResponseEventView) -> bool {
    action_of(e) matches Some(ActionView::AppendToMessageContent(_))
}

/// The event appends text to the message that `s` has for its text.
pub open spec fn appends_to(s: StateView, e: ResponseEventView) -> bool {
    match action_of(e) {
        Some(ActionView::AppendToMessageContent(a)) => {
            &&& a.task_id == s.task_id
            &&& a.message is Some
            &&& a.message->0.id == s.message_id
        },
        _ => false,
    }
}

/// The events are those of a reply that began with `s0` and has come to `s`.
pub open spec fn tells(s0: StateView, s: StateView, log: Seq<ResponseEventView>) -> bool {
    &&& s.task_id == s0.task_id
    &&& s.request_id == s0.request_id
    &&& s.message_id == s0.message_id
    &&& s.emitted_init == (log.len() > 0)
    &&& !s.emitted_init ==> s.pending_init == s0.pending_init && !s.emitted_placeholder
        && !s.finished
    &&& log.len() > 0 ==> Some(log[0]) == s0.pending_init
    &&& forall|i: int| 0 < i < log.len() ==> !events::is_init(#[trigger] log[i])
    &&& forall|i: int|
        0 <= i < log.len() ==> (events::is_finished(#[trigger] log[i]) <==> s.finished && i
            == log.len() - 1)
    &&& s.emitted_placeholder <==> exists|j: int|
        0 <= j < log.len() && is_placeholder(s0, #[trigger] log[j])
    &&& forall|i: int|
        0 <= i < log.len() && is_append(#[trigger] log[i]) ==> exists|j: int|
            0 <= j < i && is_placeholder(s0, #[trigger] log[j])
    &&& forall|i: int|
        0 <= i < log.len() && is_append(#[trigger] log[i]) ==> appends_to(s0, log[i])
    &&& forall|i: int, j: int|
        0 <= i < j < log.len() ==> !(is_placeholder(s0, #[trigger] log[i]) && is_placeholder(
            s0,
            #[trigger] log[j],
        ))
}

/// One more event.
proof fn lemma_one_more(
    s0: StateView,
    s: StateView,
    log: Seq<ResponseEventView>,
    next: StateView,
    e: ResponseEventView,
)
    requires
        tells(s0, s, log),
        s.emitted_init,
        !s.finished,
        next.task_id == s.task_id,
        next.request_id == s.request_id,
        next.message_id == s.message_id,
        next.emitted_init,
        !events::is_init(e),
        next.finished == events::is_finished(e),
        is_append(e) ==> s.emitted_placeholder && appends_to(s0, e),
        next.emitted_placeholder == (s.emitted_placeholder || is_placeholder(s0, e)),
        is_placeholder(s0, e) ==> !s.emitted_placeholder,
    ensures
        tells(s0, next, log.push(e)),
{
    let n = log.len() as int;
    let longer = log.push(e);
    assert(longer[n] == e);
    assert forall|i: int| 0 <= i < n implies longer[i] == log[i] by {}
    assert(next.emitted_placeholder <==> exists|j: int|
        0 <= j < longer.len() && is_placeholder(s0, #[trigger] longer[j])) by {
        if s.emitted_placeholder {
            let j = choose|j: int| 0 <= j < log.len() && is_placeholder(s0, #[trigger] log[j]);
            assert(is_placeholder(s0, longer[j]));
        }
        if exists|j: int| 0 <= j < longer.len() && is_placeholder(s0, #[trigger] longer[j]) {
            let j = choose|j: int| 0 <= j < longer.len() && is_placeholder(
                s0,
                #[trigger] longer[j],
            );
            if j < n {
                assert(is_placeholder(s0, log[j]));
            }
        }
    }
    assert forall|i: int| 0 <= i < longer.len() && is_append(#[trigger] longer[i]) implies exists|
        j: int,
    |
        0 <= j < i && is_placeholder(s0, #[trigger] longer[j]) by {
        if i < n {
            assert(is_append(log[i]));
            let j = choose|j: int| 0 <= j < i && is_placeholder(s0, #[trigger] log[j]);
            assert(is_placeholder(s0, longer[j]));
        } else {
            let j = choose|j: int| 0 <= j < log.len() && is_placeholder(s0, #[trigger] log[j]);
            assert(is_placeholder(s0, longer[j]));
        }
    }
}

proof fn lemma_opened(s0: StateView, s: StateView, log: Seq<ResponseEventView>)
    requires
        tells(s0, s, log),
        s0.pending_init matches Some(init) && events::is_init(init),
    ensures
        tells(s0, streaming::opened(s).state, log + streaming::opened(s).events),
        streaming::opened(s).state.emitted_init,
        streaming::opened(s).state.finished == s.finished,
        streaming::opened(s).state.calls == s.calls,
{
    let step = streaming::opened(s);
    if s.emitted_init {
        assert(log + step.events =~= log);
    } else {
        let init = s0.pending_init->0;
        let longer = log + step.events;
        assert(longer =~= seq![init]);
        assert(!is_append(init));
        assert forall|j: int| 0 <= j < longer.len() implies !is_placeholder(
            s0,
            #[trigger] longer[j],
        ) by {
            if is_placeholder(s0, longer[j]) {
                let time = choose|time: Timestamp|
                    longer[j] == #[trigger] streaming::placeholder_event(s0, time);
                assert(!events::is_init(streaming::placeholder_event(s0, time)));
            }
        }
    }
}

proof fn lemma_with_placeholder(
    s0: StateView,
    s: StateView,
    log: Seq<ResponseEventView>,
    time: Timestamp,
)
    requires
        tells(s0, s, log),
        s.emitted_init,
        !s.finished,
    ensures
        ({
            let step = streaming::with_placeholder(s, time);
            &&& tells(s0, step.state, log + step.events)
            &&& step.state.emitted_init
            &&& step.state.emitted_placeholder
            &&& !step.state.finished
            &&& step.state.calls == s.calls
        }),
{
    let step = streaming::with_placeholder(s, time);
    if s.emitted_placeholder {
        assert(log + step.events =~= log);
    } else {
        let e = streaming::placeholder_event(s, time);
        assert(e == streaming::placeholder_event(s0, time));
        assert(is_placeholder(s0, e));
        assert(!is_append(e));
        lemma_one_more(s0, s, log, step.state, e);
        assert(log + step.events =~= log.push(e));
    }
}

/// An event that appends text does not add a message.
proof fn lemma_append_event(s0: StateView, s: StateView, delta: Seq<char>)
    ensures
        is_append(streaming::append_event(s, delta)),
        !is_placeholder(s0, streaming::append_event(s, delta)),
        !events::is_init(streaming::append_event(s, delta)),
        !events::is_finished(streaming::append_event(s, delta)),
{
    let e = streaming::append_event(s, delta);
    if is_placeholder(s0, e) {
        let time = choose|time: Timestamp| e == #[trigger] streaming::placeholder_event(s0, time);
        assert(action_of(streaming::placeholder_event(s0, time)) matches Some(
            ActionView::AddMessagesToTask(_),
        ));
    }
}

proof fn lemma_appended(
    s0: StateView,
    s: StateView,
    log: Seq<ResponseEventView>,
    delta: Seq<char>,
)
    requires
        tells(s0, s, log),
        s.emitted_init,
        s.emitted_placeholder,
        !s.finished,
    ensures
        tells(s0, s, log + streaming::appended(s, delta).events),
{
    let e = streaming::append_event(s, delta);
    lemma_append_event(s0, s, delta);
    lemma_one_more(s0, s, log, s, e);
    assert(log + streaming::appended(s, delta).events =~= log.push(e));
}

proof fn lemma_ended_by(
    s0: StateView,
    s: StateView,
    log: Seq<ResponseEventView>,
    e: ResponseEventView,
)
    requires
        tells(s0, s, log),
        s.emitted_init,
        !s.finished,
        events::is_finished(e),
    ensures
        tells(s0, streaming::ended_by(s, e).state, log + streaming::ended_by(s, e).events),
        streaming::ended_by(s, e).state.finished,
{
    assert(!is_append(e));
    assert(!is_placeholder(s0, e)) by {
        if is_placeholder(s0, e) {
            let time = choose|time: Timestamp|
                e == #[trigger] streaming::placeholder_event(s0, time);
            assert(!events::is_finished(streaming::placeholder_event(s0, time)));
        }
    }
    lemma_one_more(s0, s, log, streaming::ended_by(s, e).state, e);
    assert(log + streaming::ended_by(s, e).events =~= log.push(e));
}

/// All the messages call tools.
pub open spec fn all_calls(messages: Seq<MessageView>) -> bool {
    forall|i: int|
        0 <= i < messages.len() ==> (#[trigger] messages[i]).message matches Some(
            MessageTypeView::ToolCall(_),
        )
}

proof fn lemma_with_messages(
    s0: StateView,
    s: StateView,
    log: Seq<ResponseEventView>,
    messages: Seq<MessageView>,
)
    requires
        tells(s0, s, log),
        s.emitted_init,
        !s.finished,
        all_calls(messages),
    ensures
        tells(s0, s, log + streaming::with_messages(s, messages).events),
{
    let step = streaming::with_messages(s, messages);
    if messages.len() > 0 {
        let e = events::add_messages_event(s.task_id, messages);
        assert(!is_append(e));
        assert(!is_placeholder(s0, e)) by {
            if is_placeholder(s0, e) {
                let time = choose|time: Timestamp|
                    e == #[trigger] streaming::placeholder_event(s0, time);
                let other = seq![
                    events::agent_output_message(
                        s0.message_id,
                        s0.task_id,
                        s0.request_id,
                        Some(time),
                        Seq::empty(),
                    ),
                ];
                assert(action_of(e)->0->AddMessagesToTask_0.messages == messages);
                assert(action_of(streaming::placeholder_event(s0, time))
                    ->0->AddMessagesToTask_0.messages == other);
                assert(messages[0] == other[0]);
            }
        }
        lemma_one_more(s0, s, log, s, e);
        assert(log + step.events =~= log.push(e));
    } else {
        assert(log + step.events =~= log);
    }
}

/// The messages for calls call tools.
proof fn lemma_call_messages(
    s: StateView,
    settled: Seq<Result<MessageView, Seq<char>>>,
    calls: Seq<PendingCallView>,
    stamps: Seq<CallStampView>,
)
    requires
        settled.len() <= calls.len(),
        forall|i: int|
            0 <= i < settled.len() ==> #[trigger] settled[i] == streaming::settled(
                s,
                calls[i],
                stamps[i],
            ),
    ensures
        all_calls(streaming::call_messages(settled)),
    decreases settled.len(),
{
    if settled.len() > 0 {
        let before = settled.drop_last();
        assert forall|i: int| 0 <= i < before.len() implies #[trigger] before[i]
            == streaming::settled(s, calls[i], stamps[i]) by {
            assert(settled[i] == streaming::settled(s, calls[i], stamps[i]));
        }
        lemma_call_messages(s, before, calls, stamps);
        let n = settled.len() - 1;
        assert(settled[n] == streaming::settled(s, calls[n], stamps[n]));
    }
}

proof fn lemma_calls_made(
    s0: StateView,
    s: StateView,
    log: Seq<ResponseEventView>,
    stamps: StampsView,
)
    requires
        tells(s0, s, log),
        s.emitted_init,
        !s.finished,
    ensures
        ({
            let step = streaming::calls_made(s, stamps);
            &&& tells(s0, step.state, log + step.events)
            &&& step.state.emitted_init
            &&& !step.state.finished
        }),
{
    let step = streaming::calls_made(s, stamps);
    if s.calls.is_empty() {
        assert(log + step.events =~= log);
    } else {
        let calls = pending::in_order(s.calls);
        let settled = streaming::all_settled(s, calls, stamps.calls);
        let messages = streaming::call_messages(settled);
        let notes = streaming::call_notes(settled);
        let cleared = StateView { calls: Map::empty(), ..s };
        lemma_call_messages(s, settled, calls, stamps.calls);
        lemma_with_messages(s0, cleared, log, messages);
        let added = streaming::with_messages(cleared, messages);
        let longer = log + added.events;
        if notes.len() > 0 {
            let time = stamps.placeholder_time;
            let placed = streaming::with_placeholder(cleared, time);
            lemma_with_placeholder(s0, cleared, longer, time);
            lemma_appended(s0, placed.state, longer + placed.events, text::joined(notes, "\n"@));
            assert(log + step.events =~= longer + placed.events + streaming::appended(
                placed.state,
                text::joined(notes, "\n"@),
            ).events);
        } else {
            assert(log + step.events =~= longer);
        }
    }
}

proof fn lemma_spoken(
    s0: StateView,
    s: StateView,
    log: Seq<ResponseEventView>,
    content: Seq<char>,
    time: Timestamp,
)
    requires
        tells(s0, s, log),
        s0.pending_init matches Some(init) && events::is_init(init),
        !s.finished,
    ensures
        tells(
            s0,
            streaming::spoken(s, content, time).state,
            log + streaming::spoken(s, content, time).events,
        ),
        !streaming::spoken(s, content, time).state.finished,
{
    let step = streaming::spoken(s, content, time);
    if content.len() > 0 {
        let first = streaming::opened(s);
        lemma_opened(s0, s, log);
        let placed = streaming::with_placeholder(first.state, time);
        lemma_with_placeholder(s0, first.state, log + first.events, time);
        lemma_appended(s0, placed.state, log + first.events + placed.events, content);
        assert(log + step.events =~= log + first.events + placed.events + streaming::appended(
            placed.state,
            content,
        ).events);
    } else {
        assert(log + step.events =~= log);
    }
}

proof fn lemma_closed(
    s0: StateView,
    s: StateView,
    log: Seq<ResponseEventView>,
    finish: Option<Seq<char>>,
    stamps: StampsView,
)
    requires
        tells(s0, s, log),
        s0.pending_init matches Some(init) && events::is_init(init),
        !s.finished,
    ensures
        tells(
            s0,
            streaming::closed(s, finish, stamps).state,
            log + streaming::closed(s, finish, stamps).events,
        ),
        streaming::closed(s, finish, stamps).state.finished == (finish is Some),
{
    let step = streaming::closed(s, finish, stamps);
    match finish {
        Some(reason) => {
            let first = streaming::opened(s);
            lemma_opened(s0, s, log);
            let middle = streaming::rounded_off(first.state, reason, stamps);
            if reason == "tool_calls"@ || !first.state.calls.is_empty() {
                lemma_calls_made(s0, first.state, log + first.events, stamps);
            } else {
                lemma_with_placeholder(
                    s0,
                    first.state,
                    log + first.events,
                    stamps.placeholder_time,
                );
            }
            lemma_ended_by(
                s0,
                middle.state,
                log + first.events + middle.events,
                streaming::end_for(reason),
            );
            assert(log + step.events =~= log + first.events + middle.events
                + streaming::ended_by(middle.state, streaming::end_for(reason)).events);
        },
        None => {
            assert(log + step.events =~= log);
        },
    }
}

proof fn lemma_concluded(
    s0: StateView,
    s: StateView,
    log: Seq<ResponseEventView>,
    e: ResponseEventView,
)
    requires
        tells(s0, s, log),
        s0.pending_init matches Some(init) && events::is_init(init),
        !s.finished,
        events::is_finished(e),
    ensures
        tells(s0, streaming::concluded(s, e).state, log + streaming::concluded(s, e).events),
        streaming::concluded(s, e).state.finished,
{
    let first = streaming::opened(s);
    lemma_opened(s0, s, log);
    lemma_ended_by(s0, first.state, log + first.events, e);
    assert(log + streaming::concluded(s, e).events =~= log + first.events
        + streaming::ended_by(first.state, e).events);
}

/// The frame ends the reply.
pub open spec fn ends_reply(frame: FrameView) -> bool {
    match frame {
        FrameView::Eof => true,
        FrameView::Open => false,
        FrameView::Message(data) => match streaming::data_in(data) {
            FrameDataView::Done => true,
            FrameDataView::Chunk(chunk) => chunk.choices.len() > 0
                && chunk.choices[0].finish_reason is Some,
            FrameDataView::Malformed => false,
        },
        FrameView::Error(_) => true,
    }
}

proof fn lemma_after_frame(
    s0: StateView,
    s: StateView,
    log: Seq<ResponseEventView>,
    frame: FrameView,
    stamps: StampsView,
)
    requires
        tells(s0, s, log),
        s0.pending_init matches Some(init) && events::is_init(init),
        !s.finished,
    ensures
        ({
            let step = streaming::after_frame(s, frame, stamps);
            &&& tells(s0, step.state, log + step.events)
            &&& step.state.finished == ends_reply(frame)
        }),
{
    let step = streaming::after_frame(s, frame, stamps);
    match frame {
        FrameView::Eof => lemma_concluded(s0, s, log, streaming::done_reply()),
        FrameView::Open => assert(log + step.events =~= log),
        FrameView::Message(data) => match streaming::data_in(data) {
            FrameDataView::Done => lemma_concluded(s0, s, log, streaming::done_reply()),
            FrameDataView::Chunk(chunk) => {
                if chunk.choices.len() == 0 {
                    assert(log + step.events =~= log);
                } else {
                    let now = streaming::heard(s, chunk);
                    let said = streaming::spoken(
                        now,
                        streaming::content_of(chunk),
                        stamps.placeholder_time,
                    );
                    let finish = chunk.choices[0].finish_reason;
                    lemma_spoken(
                        s0,
                        now,
                        log,
                        streaming::content_of(chunk),
                        stamps.placeholder_time,
                    );
                    lemma_closed(s0, said.state, log + said.events, finish, stamps);
                    assert(log + step.events =~= log + said.events + streaming::closed(
                        said.state,
                        finish,
                        stamps,
                    ).events);
                }
            },
            FrameDataView::Malformed => assert(log + step.events =~= log),
        },
        FrameView::Error(cause) => lemma_concluded(s0, s, log, streaming::broken_reply(cause)),
    }
}

/// Whatever the endpoint sends: the first event opens the reply and no other
/// does; the reply has ended exactly where the last event ends it, and no
/// event before ends it; text is only appended behind the one event that adds
/// the message it goes to, and only to that message.
pub proof fn law_reply_is_well_told(
    request: RequestView,
    task_id: Seq<char>,
    request_id: Seq<char>,
    message_id: Seq<char>,
    ticks: Seq<Tick>,
)
    ensures
        ({
            let s0 = local_dispatch::fresh_state(request, task_id, request_id, message_id);
            let reply = run(s0, ticks);
            let log = reply.events;
            &&& log.len() > 0 ==> log[0] == events::init_event(request, request_id)
            &&& forall|i: int| 0 < i < log.len() ==> !events::is_init(#[trigger] log[i])
            &&& forall|i: int|
                0 <= i < log.len() ==> (events::is_finished(#[trigger] log[i])
                    <==> reply.state.finished && i == log.len() - 1)
            &&& reply.state.finished ==> log.len() > 0
            &&& forall|i: int|
                0 <= i < log.len() && is_append(#[trigger] log[i]) ==> exists|j: int|
                    0 <= j < i && is_placeholder(s0, #[trigger] log[j])
            &&& forall|i: int|
                0 <= i < log.len() && is_append(#[trigger] log[i]) ==> appends_to(s0, log[i])
            &&& forall|i: int, j: int|
                0 <= i < j < log.len() ==> !(is_placeholder(s0, #[trigger] log[i])
                    && is_placeholder(s0, #[trigger] log[j]))
        }),
{
    let s0 = local_dispatch::fresh_state(request, task_id, request_id, message_id);
    lemma_run(s0, ticks);
}

proof fn lemma_run(s0: StateView, ticks: Seq<Tick>)
    requires
        s0.pending_init matches Some(init) && events::is_init(init),
        !s0.emitted_init,
        !s0.emitted_placeholder,
        !s0.finished,
    ensures
        tells(s0, run(s0, ticks).state, run(s0, ticks).events),
    decreases ticks.len(),
{
    if ticks.len() > 0 {
        let before = run(s0, ticks.drop_last());
        lemma_run(s0, ticks.drop_last());
        if !before.state.finished {
            lemma_after_frame(
                s0,
                before.state,
                before.events,
                ticks.last().frame,
                ticks.last().stamps,
            );
        }
    }
}

/// The reply ends with the first frame that ends it: a finish reason, the
/// `[DONE]` frame, the end of the stream or an error; and with no other.
pub proof fn law_reply_ends(
    request: RequestView,
    task_id: Seq<char>,
    request_id: Seq<char>,
    message_id: Seq<char>,
    ticks: Seq<Tick>,
)
    ensures
        ({
            let s0 = local_dispatch::fresh_state(request, task_id, request_id, message_id);
            run(s0, ticks).state.finished <==> exists|i: int|
                0 <= i < ticks.len() && ends_reply(#[trigger] ticks[i].frame)
        }),
    decreases ticks.len(),
{
    let s0 = local_dispatch::fresh_state(request, task_id, request_id, message_id);
    if ticks.len() > 0 {
        let shorter = ticks.drop_last();
        let before = run(s0, shorter);
        law_reply_ends(request, task_id, request_id, message_id, shorter);
        if before.state.finished {
            let i = choose|i: int| 0 <= i < shorter.len() && ends_reply(
                #[trigger] shorter[i].frame,
            );
            assert(ends_reply(ticks[i].frame));
        } else {
            lemma_run(s0, shorter);
            lemma_after_frame(
                s0,
                before.state,
                before.events,
                ticks.last().frame,
                ticks.last().stamps,
            );
            let n = ticks.len() - 1;
            if ends_reply(ticks[n].frame) {
            } else if exists|i: int| 0 <= i < ticks.len() && ends_reply(#[trigger] ticks[i].frame) {
                let i = choose|i: int| 0 <= i < ticks.len() && ends_reply(
                    #[trigger] ticks[i].frame,
                );
                assert(ends_reply(shorter[i].frame));
            }
        }
    }
}

// ---- One chunk, in whatever state it comes ---------------------------------

/// None of the events ends a reply.
pub open spec fn ends_nothing(log: Seq<ResponseEventView>) -> bool {
    forall|i: int| 0 <= i < log.len() ==> !events::is_finished(#[trigger] log[i])
}

/// The opening event, if one is waiting, ends no reply.
pub open spec fn opening_ends_nothing(s: StateView) -> bool {
    s.emitted_init || !(s.pending_init matches Some(init) && events::is_finished(init))
}

proof fn lemma_opened_ends_nothing(s: StateView)
    requires
        opening_ends_nothing(s),
    ensures
        ends_nothing(streaming::opened(s).events),
        streaming::opened(s).state.finished == s.finished,
        opening_ends_nothing(streaming::opened(s).state),
{
}

proof fn lemma_appended_ends_nothing(s: StateView, delta: Seq<char>, time: Timestamp)
    ensures
        ({
            let placed = streaming::with_placeholder(s, time);
            &&& ends_nothing(placed.events)
            &&& ends_nothing(streaming::appended(placed.state, delta).events)
            &&& placed.state.finished == s.finished
            &&& opening_ends_nothing(s) ==> opening_ends_nothing(placed.state)
        }),
{
}

proof fn lemma_spoken_ends_nothing(s: StateView, content: Seq<char>, time: Timestamp)
    requires
        opening_ends_nothing(s),
    ensures
        ends_nothing(streaming::spoken(s, content, time).events),
        streaming::spoken(s, content, time).state.finished == s.finished,
        opening_ends_nothing(streaming::spoken(s, content, time).state),
{
    let first = streaming::opened(s);
    lemma_opened_ends_nothing(s);
    lemma_appended_ends_nothing(first.state, content, time);
}

proof fn lemma_rounded_off_ends_nothing(s: StateView, reason: Seq<char>, stamps: StampsView)
    ensures
        ends_nothing(streaming::rounded_off(s, reason, stamps).events),
        streaming::rounded_off(s, reason, stamps).state.finished == s.finished,
{
    let settled = streaming::all_settled(s, pending::in_order(s.calls), stamps.calls);
    let notes = streaming::call_notes(settled);
    let cleared = StateView { calls: Map::empty(), ..s };
    let time = stamps.placeholder_time;
    let added = streaming::with_messages(cleared, streaming::call_messages(settled));
    assert(ends_nothing(added.events));
    lemma_appended_ends_nothing(cleared, text::joined(notes, "\n"@), time);
    assert(ends_nothing(streaming::with_notes(cleared, notes, time).events));
    lemma_appended_ends_nothing(s, Seq::empty(), time);
}

/// In any state, a chunk whose first alternative has a finish reason ends the
/// reply, and no other chunk does. A reply that had not ended gets one event
/// that ends it, behind all others; one that had ended gets none. The other
/// alternatives change nothing, nor does a chunk without any.
pub proof fn law_chunk_ends_reply(s: StateView, chunk: ChunkView, stamps: StampsView)
    requires
        opening_ends_nothing(s),
    ensures
        ({
            let step = streaming::after_chunk(s, chunk, stamps);
            let log = step.events;
            let ends = chunk.choices.len() > 0 && chunk.choices[0].finish_reason is Some;
            &&& step.state.finished == (s.finished || ends)
            &&& !s.finished && ends ==> log.len() > 0
            &&& forall|i: int|
                0 <= i < log.len() ==> (events::is_finished(#[trigger] log[i]) <==> !s.finished
                    && ends && i == log.len() - 1)
            &&& chunk.choices.len() == 0 ==> step == streaming::stay(s)
            &&& forall|other: ChunkView|
                chunk.choices.len() > 0 && other.choices.len() > 0 && other.choices[0]
                    == chunk.choices[0] ==> #[trigger] streaming::after_chunk(s, other, stamps)
                    == step
        }),
{
    let step = streaming::after_chunk(s, chunk, stamps);
    if chunk.choices.len() > 0 {
        let now = streaming::heard(s, chunk);
        let time = stamps.placeholder_time;
        let said = streaming::spoken(now, streaming::content_of(chunk), time);
        lemma_spoken_ends_nothing(now, streaming::content_of(chunk), time);
        match chunk.choices[0].finish_reason {
            Some(reason) => {
                let first = streaming::opened(said.state);
                lemma_opened_ends_nothing(said.state);
                let middle = streaming::rounded_off(first.state, reason, stamps);
                lemma_rounded_off_ends_nothing(first.state, reason, stamps);
                let end = streaming::ended_by(middle.state, streaming::end_for(reason));
                assert(events::is_finished(streaming::end_for(reason)));
                assert(step.events =~= said.events + (first.events + (middle.events
                    + end.events)));
                assert(step.state == end.state);
            },
            None => {
                assert(step.events =~= said.events);
            },
        }
        assert forall|other: ChunkView|
            other.choices.len() > 0 && other.choices[0] == chunk.choices[0] implies #[trigger]
            streaming::after_chunk(s, other, stamps) == step by {
            let f = |s: StateView| streaming::closed(s, chunk.choices[0].finish_reason, stamps);
            let g = |s: StateView| streaming::closed(s, other.choices[0].finish_reason, stamps);
            assert(streaming::heard(s, other) == now);
            assert(f(said.state) == g(said.state));
        }
    }
}

// ---- Frames ----------------------------------------------------------------

/// A frame that makes no sense is passed over.
pub proof fn law_bad_frame_is_passed_over(s: StateView, data: Seq<char>, stamps: StampsView)
    requires
        streaming::data_in(data) is Malformed,
    ensures
        streaming::after_frame(s, FrameView::Message(data), stamps) == streaming::stay(s),
{
}

/// A frame is read as the object in it, however that is laid out.
pub proof fn law_frame_is_read_as_its_object(item: WrittenItem)
    requires
        layout::well_spaced_item(item),
        item.value is Obj,
    ensures
        streaming::data_in(layout::item_text(item)) == (match replies::chunk_in(
            json::json_text(layout::plain(item.value)),
        ) {
            Some(chunk) => FrameDataView::Chunk(chunk),
            None => FrameDataView::Malformed,
        }),
{
    let w = item.value;
    let t = layout::written(w);
    layout::lemma_ends(w);
    assert(t[0] == '{' && t.last() == '}');
    assert forall|i: int| 0 <= i < item.before.len() implies text::is_white_space(
        #[trigger] item.before[i],
    ) by {
        assert(layout::is_space_char(item.before[i]));
    }
    assert forall|i: int| 0 <= i < item.after.len() implies text::is_white_space(
        #[trigger] item.after[i],
    ) by {
        assert(layout::is_space_char(item.after[i]));
    }
    text::lemma_trimmed_padded(item.before, t, item.after);
    reveal_strlit("[DONE]");
    assert("[DONE]"@[0] == '[');
    assert(layout::item_text(record::bare(w)) =~= t);
    replies::law_layout_of_a_chunk(record::bare(w));
}

// ---- What the user reads ---------------------------------------------------

/// The text that an event appends.
pub open spec fn text_in_event(e: ResponseEventView) -> Seq<char> {
    match action_of(e) {
        Some(ActionView::AppendToMessageContent(a)) => match a.message {
            Some(m) => match m.message {
                Some(MessageTypeView::AgentOutput(o)) => o.text,
                _ => Seq::empty(),
            },
            None => Seq::empty(),
        },
        _ => Seq::empty(),
    }
}

/// All the text that the events append, one after the other.
pub open spec fn text_of(log: Seq<ResponseEventView>) -> Seq<char>
    decreases log.len(),
{
    if log.len() == 0 {
        Seq::empty()
    } else {
        text_of(log.drop_last()) + text_in_event(log.last())
    }
}

/// The notes on the calls in flight that cannot be made.
pub open spec fn notes_on(s: StateView, stamps: StampsView) -> Seq<char> {
    if s.calls.is_empty() {
        Seq::empty()
    } else {
        text::joined(
            streaming::call_notes(
                streaming::all_settled(s, pending::in_order(s.calls), stamps.calls),
            ),
            "\n"@,
        )
    }
}

/// The text that a frame brings: what the model says and, once it has
/// finished, the notes on its calls.
pub open spec fn frame_text(s: StateView, frame: FrameView, stamps: StampsView) -> Seq<char> {
    match frame {
        FrameView::Message(data) => match streaming::data_in(data) {
            FrameDataView::Chunk(chunk) => if chunk.choices.len() == 0 {
                Seq::empty()
            } else if chunk.choices[0].finish_reason is Some {
                streaming::content_of(chunk) + notes_on(streaming::heard(s, chunk), stamps)
            } else {
                streaming::content_of(chunk)
            },
            _ => Seq::empty(),
        },
        _ => Seq::empty(),
    }
}

/// The text that the frames bring, up to the end of the reply.
pub open spec fn run_text(s: StateView, ticks: Seq<Tick>) -> Seq<char>
    decreases ticks.len(),
{
    if ticks.len() == 0 {
        Seq::empty()
    } else {
        let before = run(s, ticks.drop_last());
        if before.state.finished {
            run_text(s, ticks.drop_last())
        } else {
            run_text(s, ticks.drop_last()) + frame_text(
                before.state,
                ticks.last().frame,
                ticks.last().stamps,
            )
        }
    }
}

proof fn lemma_text_concat(a: Seq<ResponseEventView>, b: Seq<ResponseEventView>)
    ensures
        text_of(a + b) == text_of(a) + text_of(b),
    decreases b.len(),
{
    if b.len() == 0 {
        assert(a + b =~= a);
        assert(text_of(a) + text_of(b) =~= text_of(a));
    } else {
        assert((a + b).drop_last() =~= a + b.drop_last());
        assert((a + b).last() == b.last());
        lemma_text_concat(a, b.drop_last());
        assert(text_of(a + b) =~= text_of(a) + text_of(b));
    }
}

proof fn lemma_text_of_one(e: ResponseEventView)
    ensures
        text_of(seq![e]) == text_in_event(e),
{
    assert(seq![e].drop_last() =~= Seq::empty());
    assert(text_of(seq![e].drop_last()) =~= Seq::empty());
    assert(seq![e].last() == e);
    assert(text_of(seq![e]) =~= text_in_event(e));
}

proof fn lemma_silent_steps(s: StateView, time: Timestamp)
    requires
        s.pending_init matches Some(init) ==> events::is_init(init),
    ensures
        text_of(streaming::opened(s).events) == Seq::<char>::empty(),
        text_of(streaming::with_placeholder(s, time).events) == Seq::<char>::empty(),
{
    if let Some(init) = s.pending_init {
        lemma_text_of_one(init);
    }
    lemma_text_of_one(streaming::placeholder_event(s, time));
}

proof fn lemma_text_of_calls(s: StateView, stamps: StampsView)
    requires
        s.pending_init matches Some(init) ==> events::is_init(init),
    ensures
        text_of(streaming::calls_made(s, stamps).events) == notes_on(s, stamps),
{
    if !s.calls.is_empty() {
        let settled = streaming::all_settled(s, pending::in_order(s.calls), stamps.calls);
        let messages = streaming::call_messages(settled);
        let notes = streaming::call_notes(settled);
        let cleared = StateView { calls: Map::empty(), ..s };
        let added = streaming::with_messages(cleared, messages);
        if messages.len() > 0 {
            lemma_text_of_one(events::add_messages_event(s.task_id, messages));
        }
        assert(text_of(added.events) =~= Seq::empty());
        let noted = streaming::with_notes(cleared, notes, stamps.placeholder_time);
        if notes.len() > 0 {
            let placed = streaming::with_placeholder(cleared, stamps.placeholder_time);
            let t = text::joined(notes, "\n"@);
            lemma_silent_steps(cleared, stamps.placeholder_time);
            lemma_text_of_one(streaming::append_event(placed.state, t));
            lemma_text_concat(placed.events, streaming::appended(placed.state, t).events);
            assert(text_of(noted.events) =~= t);
        } else {
            assert(text_of(noted.events) =~= text::joined(notes, "\n"@));
        }
        lemma_text_concat(added.events, noted.events);
        assert(text_of(streaming::calls_made(s, stamps).events) =~= notes_on(s, stamps));
    }
}

/// Notes do not depend on where the reply stands.
proof fn lemma_same_notes(s: StateView, other: StateView, stamps: StampsView)
    requires
        s.calls == other.calls,
        s.task_id == other.task_id,
        s.request_id == other.request_id,
    ensures
        notes_on(s, stamps) == notes_on(other, stamps),
{
    assert(streaming::all_settled(s, pending::in_order(s.calls), stamps.calls)
        =~= streaming::all_settled(other, pending::in_order(s.calls), stamps.calls));
}

proof fn lemma_text_of_spoken(s: StateView, content: Seq<char>, time: Timestamp)
    requires
        s.pending_init matches Some(init) ==> events::is_init(init),
    ensures
        text_of(streaming::spoken(s, content, time).events) == content,
        streaming::spoken(s, content, time).state.calls == s.calls,
        streaming::spoken(s, content, time).state.task_id == s.task_id,
        streaming::spoken(s, content, time).state.request_id == s.request_id,
        streaming::spoken(s, content, time).state.pending_init matches Some(init)
            ==> events::is_init(init),
{
    let step = streaming::spoken(s, content, time);
    if content.len() > 0 {
        let first = streaming::opened(s);
        let placed = streaming::with_placeholder(first.state, time);
        let last = streaming::appended(placed.state, content);
        lemma_silent_steps(s, time);
        lemma_silent_steps(first.state, time);
        lemma_text_of_one(streaming::append_event(placed.state, content));
        lemma_text_concat(placed.events, last.events);
        lemma_text_concat(first.events, placed.events + last.events);
        assert(step.events =~= first.events + (placed.events + last.events));
        assert(text_of(step.events) =~= content);
    } else {
        assert(text_of(step.events) =~= content);
    }
}

proof fn lemma_text_of_ended(s: StateView, e: ResponseEventView)
    requires
        events::is_finished(e),
    ensures
        text_of(streaming::ended_by(s, e).events) == Seq::<char>::empty(),
{
    lemma_text_of_one(e);
}

proof fn lemma_text_of_closed(s: StateView, finish: Option<Seq<char>>, stamps: StampsView)
    requires
        s.pending_init matches Some(init) ==> events::is_init(init),
    ensures
        text_of(streaming::closed(s, finish, stamps).events) == (if finish is Some {
            notes_on(s, stamps)
        } else {
            Seq::empty()
        }),
{
    if let Some(reason) = finish {
        let first = streaming::opened(s);
        let middle = streaming::rounded_off(first.state, reason, stamps);
        let e = streaming::end_for(reason);
        let last = streaming::ended_by(middle.state, e);
        lemma_silent_steps(s, stamps.placeholder_time);
        lemma_silent_steps(first.state, stamps.placeholder_time);
        lemma_text_of_calls(first.state, stamps);
        lemma_same_notes(s, first.state, stamps);
        lemma_text_of_ended(middle.state, e);
        lemma_text_concat(middle.events, last.events);
        lemma_text_concat(first.events, middle.events + last.events);
        let step = streaming::closed(s, finish, stamps);
        assert(step.events =~= first.events + (middle.events + last.events));
        assert(text_of(step.events) =~= notes_on(s, stamps));
    }
}

/// What a frame brings is appended to the reply as it is: no text is lost,
/// changed or made up.
pub proof fn law_frame_text_is_kept(s: StateView, frame: FrameView, stamps: StampsView)
    requires
        s.pending_init matches Some(init) ==> events::is_init(init),
    ensures
        text_of(streaming::after_frame(s, frame, stamps).events) == frame_text(s, frame, stamps),
{
    let step = streaming::after_frame(s, frame, stamps);
    match frame {
        FrameView::Message(data) => match streaming::data_in(data) {
            FrameDataView::Chunk(chunk) => {
                if chunk.choices.len() > 0 {
                    let now = streaming::heard(s, chunk);
                    let content = streaming::content_of(chunk);
                    let time = stamps.placeholder_time;
                    let finish = chunk.choices[0].finish_reason;
                    let said = streaming::spoken(now, content, time);
                    lemma_text_of_spoken(now, content, time);
                    lemma_text_of_closed(said.state, finish, stamps);
                    lemma_same_notes(now, said.state, stamps);
                    let rest = streaming::closed(said.state, finish, stamps);
                    lemma_text_concat(said.events, rest.events);
                    assert(step.events =~= said.events + rest.events);
                    assert(text_of(step.events) =~= frame_text(s, frame, stamps));
                }
            },
            FrameDataView::Done => lemma_text_of_concluded(s, streaming::done_reply()),
            FrameDataView::Malformed => {},
        },
        FrameView::Eof => lemma_text_of_concluded(s, streaming::done_reply()),
        FrameView::Open => {},
        FrameView::Error(cause) => lemma_text_of_concluded(s, streaming::broken_reply(cause)),
    }
}

proof fn lemma_text_of_concluded(s: StateView, e: ResponseEventView)
    requires
        s.pending_init matches Some(init) ==> events::is_init(init),
        events::is_finished(e),
    ensures
        text_of(streaming::concluded(s, e).events) == Seq::<char>::empty(),
{
    let first = streaming::opened(s);
    let last = streaming::ended_by(first.state, e);
    lemma_silent_steps(s, arbitrary());
    lemma_text_of_ended(first.state, e);
    lemma_text_concat(first.events, last.events);
    assert(streaming::concluded(s, e).events =~= first.events + last.events);
    assert(text_of(streaming::concluded(s, e).events) =~= Seq::empty());
}

/// The text of a whole reply is what its frames brought, in order.
pub proof fn law_text_is_kept(
    request: RequestView,
    task_id: Seq<char>,
    request_id: Seq<char>,
    message_id: Seq<char>,
    ticks: Seq<Tick>,
)
    ensures
        ({
            let s0 = local_dispatch::fresh_state(request, task_id, request_id, message_id);
            text_of(run(s0, ticks).events) == run_text(s0, ticks)
        }),
    decreases ticks.len(),
{
    let s0 = local_dispatch::fresh_state(request, task_id, request_id, message_id);
    if ticks.len() > 0 {
        let before = run(s0, ticks.drop_last());
        law_text_is_kept(request, task_id, request_id, message_id, ticks.drop_last());
        if !before.state.finished {
            let frame = ticks.last().frame;
            let stamps = ticks.last().stamps;
            lemma_run_init(s0, ticks.drop_last());
            law_frame_text_is_kept(before.state, frame, stamps);
            lemma_text_concat(
                before.events,
                streaming::after_frame(before.state, frame, stamps).events,
            );
        }
    }
}

/// The event that waits to be sent, if one does, is the one that opens the
/// reply.
proof fn lemma_run_init(s0: StateView, ticks: Seq<Tick>)
    requires
        s0.pending_init matches Some(init) && events::is_init(init),
    ensures
        run(s0, ticks).state.pending_init matches Some(init) ==> events::is_init(init),
    decreases ticks.len(),
{
    if ticks.len() > 0 {
        lemma_run_init(s0, ticks.drop_last());
    }
}

// ---- Tool calls ------------------------------------------------------------

/// While the model has not finished, its tool calls show nothing: a chunk
/// that says nothing and ends nothing only adds its pieces to the calls.
pub proof fn law_calls_wait_for_the_end(s: StateView, chunk: ChunkView, stamps: StampsView)
    requires
        chunk.choices.len() > 0,
        streaming::content_of(chunk).len() == 0,
        chunk.choices[0].finish_reason is None,
    ensures
        streaming::after_chunk(s, chunk, stamps).events.len() == 0,
        streaming::after_chunk(s, chunk, stamps).state == streaming::heard(s, chunk),
{
}

proof fn lemma_settled_count(settled: Seq<Result<MessageView, Seq<char>>>)
    ensures
        streaming::call_messages(settled).len() + streaming::call_notes(settled).len()
            == settled.len(),
    decreases settled.len(),
{
    if settled.len() > 0 {
        lemma_settled_count(settled.drop_last());
    }
}

/// Once the model has finished, each of its calls has been made or noted, and
/// none is left.
pub proof fn law_every_call_is_settled(s: StateView, chunk: ChunkView, stamps: StampsView)
    requires
        chunk.choices.len() > 0,
        chunk.choices[0].finish_reason is Some,
        streaming::heard(s, chunk).calls.dom().finite(),
    ensures
        streaming::after_chunk(s, chunk, stamps).state.calls.is_empty(),
        ({
            let calls = streaming::heard(s, chunk).calls;
            let settled = streaming::all_settled(s, pending::in_order(calls), stamps.calls);
            streaming::call_messages(settled).len() + streaming::call_notes(settled).len()
                == calls.len()
        }),
{
    let calls = streaming::heard(s, chunk).calls;
    pending::lemma_order_len(calls);
    lemma_settled_count(streaming::all_settled(s, pending::in_order(calls), stamps.calls));
}

/// A call that is made is the one that the model asked for, under the id that
/// it gave, if it gave one.
pub proof fn law_call_is_as_asked(s: StateView, call: PendingCallView, stamp: CallStampView)
    requires
        streaming::settled(s, call, stamp) is Ok,
    ensures
        ({
            let m = streaming::settled(s, call, stamp)->Ok_0;
            &&& m.task_id == s.task_id
            &&& m.message matches Some(MessageTypeView::ToolCall(c)) && c.tool
                == tools::built_tool(call.name, streaming::arguments_of(call)) && c.tool
                is Some && (call.id.len() > 0 ==> c.tool_call_id == call.id)
        }),
{
}

/// A call that was made comes back to the model in the next request: as a
/// message of the assistant with that one call, by its name and id.
pub proof fn law_call_returns_to_the_model(
    s: StateView,
    call: PendingCallView,
    stamp: CallStampView,
)
    requires
        streaming::settled(s, call, stamp) is Ok,
    ensures
        ({
            let m = streaming::settled(s, call, stamp)->Ok_0;
            &&& m.message matches Some(payload)
            &&& local_dispatch::history_entry(payload) matches Some(told)
            &&& told.role == conversation::ROLE_ASSISTANT@
            &&& told.tool_calls matches Some(calls)
            &&& calls.len() == 1
            &&& calls[0].name == call.name
            &&& calls[0].id == streaming::id_of(call, stamp)
        }),
{
    tools::law_built_tool_keeps_its_name(call.name, streaming::arguments_of(call));
}

/// In a turn of tool calls alone, all of which can be made, no empty message
/// is shown above them.
pub proof fn law_no_empty_message_above_calls(s: StateView, chunk: ChunkView, stamps: StampsView)
    requires
        chunk.choices.len() > 0,
        chunk.choices[0].finish_reason is Some,
        streaming::content_of(chunk).len() == 0,
        !streaming::heard(s, chunk).calls.is_empty(),
        streaming::call_notes(
            streaming::all_settled(
                s,
                pending::in_order(streaming::heard(s, chunk).calls),
                stamps.calls,
            ),
        ).len() == 0,
    ensures
        streaming::after_chunk(s, chunk, stamps).state.emitted_placeholder
            == s.emitted_placeholder,
{
    let now = streaming::heard(s, chunk);
    let first = streaming::opened(now);
    let calls = pending::in_order(now.calls);
    assert(streaming::all_settled(first.state, calls, stamps.calls) =~= streaming::all_settled(
        s,
        calls,
        stamps.calls,
    ));
}

// ---- What a chunk brings, event by event -----------------------------------

/// What is said in an alternative.
pub open spec fn words(choice: ChoiceView) -> Seq<char> {
    match choice.delta.content {
        Some(c) => c,
        None => Seq::empty(),
    }
}

/// The calls in flight once the pieces in an alternative have come.
pub open spec fn calls_then(calls: PendingCalls, choice: ChoiceView) -> PendingCalls {
    match choice.delta.tool_calls {
        Some(deltas) => pending::absorbed(calls, deltas),
        None => calls,
    }
}

/// The event that opens the reply, where it has not gone out.
pub open spec fn opening(s: StateView) -> Seq<ResponseEventView> {
    match s.pending_init {
        Some(e) => if s.emitted_init {
            Seq::empty()
        } else {
            seq![e]
        },
        None => Seq::empty(),
    }
}

/// An event with one action.
pub open spec fn acting(action: ActionView) -> ResponseEventView {
    ResponseEventView {
        kind: Some(
            EventTypeView::ClientActions(
                ClientActionsView { actions: seq![ClientActionView { action: Some(action) }] },
            ),
        ),
    }
}

/// The reply's message with the given text.
pub open spec fn text_message(
    s: StateView,
    time: Option<Timestamp>,
    text: Seq<char>,
) -> MessageView {
    MessageView {
        id: s.message_id,
        task_id: s.task_id,
        request_id: s.request_id,
        server_message_data: Seq::empty(),
        citations: Seq::empty(),
        timestamp: time,
        message: Some(MessageTypeView::AgentOutput(AgentOutputView { text })),
    }
}

/// The event that adds the reply's message, still without a text, where it has
/// not gone out.
pub open spec fn placing(s: StateView, time: Timestamp) -> Seq<ResponseEventView> {
    if s.emitted_placeholder {
        Seq::empty()
    } else {
        seq![
            acting(
                ActionView::AddMessagesToTask(
                    AddMessagesToTaskView {
                        task_id: s.task_id,
                        messages: seq![text_message(s, Some(time), Seq::empty())],
                    },
                ),
            ),
        ]
    }
}

/// The event that puts `text` behind the text of the reply's message.
pub open spec fn appending(s: StateView, text: Seq<char>) -> ResponseEventView {
    acting(
        ActionView::AppendToMessageContent(
            AppendToMessageContentView {
                task_id: s.task_id,
                message: Some(text_message(s, None, text)),
                mask: Some(FieldMaskView { paths: seq!["message.agent_output.text"@] }),
            },
        ),
    )
}

/// The event that ends a reply for a reason, where it has not ended.
pub open spec fn ending(s: StateView, reason: FinishReasonView) -> Seq<ResponseEventView> {
    if s.finished {
        Seq::empty()
    } else {
        seq![
            ResponseEventView {
                kind: Some(
                    EventTypeView::Finished(
                        StreamFinishedView {
                            reason: Some(reason),
                            should_refresh_model_config: false,
                        },
                    ),
                ),
            },
        ]
    }
}

/// What a reason to finish comes to: the limit of tokens is told, and all else
/// is a reply that is done.
pub open spec fn reason_meant(reason: Seq<char>) -> FinishReasonView {
    if reason == "length"@ {
        FinishReasonView::MaxTokenLimit
    } else {
        FinishReasonView::Done
    }
}

/// The arguments that a call is made with: those that came for it, or an empty
/// object where nothing but white space came.
pub open spec fn arguments_meant(arguments: Seq<char>) -> Seq<char> {
    if forall|i: int| 0 <= i < arguments.len() ==> text::is_white_space(#[trigger] arguments[i]) {
        "{}"@
    } else {
        arguments
    }
}

/// The message that makes a call, or the note on one that cannot be made. The
/// message calls the tool that the name and the arguments ask for, under the id
/// that came with the call or, where none came, under a fresh one.
pub open spec fn fate(s: StateView, call: PendingCallView, stamp: CallStampView) -> Result<
    MessageView,
    Seq<char>,
> {
    let arguments = arguments_meant(call.arguments);
    if call.name.len() == 0 {
        Err("(model emitted a tool call with no function name)"@)
    } else {
        match tools::built_tool(call.name, arguments) {
            Some(tool) => Ok(
                MessageView {
                    id: stamp.message_id,
                    task_id: s.task_id,
                    request_id: s.request_id,
                    server_message_data: Seq::empty(),
                    citations: Seq::empty(),
                    timestamp: Some(stamp.time),
                    message: Some(
                        MessageTypeView::ToolCall(
                            ToolCallView {
                                tool_call_id: if call.id.len() > 0 {
                                    call.id
                                } else {
                                    stamp.call_id
                                },
                                tool: Some(tool),
                            },
                        ),
                    ),
                },
            ),
            None => Err(
                "(model called unknown or malformed tool `"@ + call.name + "` with args: "@
                    + text::clipped(arguments, 200) + ")"@,
            ),
        }
    }
}

/// The messages that make those of the calls that can be made.
pub open spec fn made(s: StateView, calls: Seq<PendingCallView>, stamps: Seq<CallStampView>) -> Seq<
    MessageView,
>
    decreases calls.len(),
{
    if calls.len() == 0 {
        Seq::empty()
    } else {
        let before = made(s, calls.drop_last(), stamps);
        match fate(s, calls.last(), stamps[calls.len() - 1]) {
            Ok(message) => before.push(message),
            Err(_) => before,
        }
    }
}

/// The notes on those of the calls that cannot be made.
pub open spec fn noted(
    s: StateView,
    calls: Seq<PendingCallView>,
    stamps: Seq<CallStampView>,
) -> Seq<Seq<char>>
    decreases calls.len(),
{
    if calls.len() == 0 {
        Seq::empty()
    } else {
        let before = noted(s, calls.drop_last(), stamps);
        match fate(s, calls.last(), stamps[calls.len() - 1]) {
            Ok(_) => before,
            Err(note) => before.push(note),
        }
    }
}

/// The event that makes the calls that can be made.
pub open spec fn calling(s: StateView, messages: Seq<MessageView>) -> Seq<ResponseEventView> {
    if messages.len() == 0 {
        Seq::empty()
    } else {
        seq![
            acting(
                ActionView::AddMessagesToTask(
                    AddMessagesToTaskView { task_id: s.task_id, messages },
                ),
            ),
        ]
    }
}

proof fn lemma_fate(s: StateView, call: PendingCallView, stamp: CallStampView)
    ensures
        streaming::settled(s, call, stamp) == fate(s, call, stamp),
{
    text::law_blank_text_is_trimmed_away(call.arguments);
}

proof fn lemma_fates(
    s: StateView,
    calls: Seq<PendingCallView>,
    stamps: Seq<CallStampView>,
)
    ensures
        streaming::call_messages(streaming::all_settled(s, calls, stamps)) == made(
            s,
            calls,
            stamps,
        ),
        streaming::call_notes(streaming::all_settled(s, calls, stamps)) == noted(s, calls, stamps),
    decreases calls.len(),
{
    let settled = streaming::all_settled(s, calls, stamps);
    if calls.len() > 0 {
        let before = streaming::all_settled(s, calls.drop_last(), stamps);
        assert(settled.drop_last() =~= before);
        lemma_fates(s, calls.drop_last(), stamps);
        lemma_fate(s, calls.last(), stamps[calls.len() - 1]);
        assert(settled.last() == fate(s, calls.last(), stamps[calls.len() - 1]));
    }
}

/// Fates do not depend on where the reply stands.
proof fn lemma_same_fates(
    s: StateView,
    other: StateView,
    calls: Seq<PendingCallView>,
    stamps: Seq<CallStampView>,
)
    requires
        s.task_id == other.task_id,
        s.request_id == other.request_id,
    ensures
        made(s, calls, stamps) == made(other, calls, stamps),
        noted(s, calls, stamps) == noted(other, calls, stamps),
    decreases calls.len(),
{
    if calls.len() > 0 {
        lemma_same_fates(s, other, calls.drop_last(), stamps);
    }
}

/// A chunk that does not finish the reply brings what it says and nothing
/// more: the reply is opened and its message placed, where that has not
/// happened, and what the chunk says is appended, character for character. A
/// chunk that says nothing brings no event. The pieces of calls go to the calls
/// in flight.
pub proof fn law_chunk_says_its_words(s: StateView, chunk: ChunkView, stamps: StampsView)
    requires
        chunk.choices.len() > 0,
        chunk.choices[0].finish_reason is None,
    ensures
        ({
            let step = streaming::after_chunk(s, chunk, stamps);
            let said = words(chunk.choices[0]);
            &&& step.events == (if said.len() == 0 {
                Seq::empty()
            } else {
                opening(s) + placing(s, stamps.placeholder_time) + seq![appending(s, said)]
            })
            &&& step.state == (StateView {
                emitted_init: s.emitted_init || said.len() > 0,
                emitted_placeholder: s.emitted_placeholder || said.len() > 0,
                pending_init: if !s.emitted_init && said.len() > 0 {
                    None
                } else {
                    s.pending_init
                },
                calls: calls_then(s.calls, chunk.choices[0]),
                ..s
            })
        }),
{
    let step = streaming::after_chunk(s, chunk, stamps);
    let said = words(chunk.choices[0]);
    if said.len() > 0 {
        assert(step.events =~= opening(s) + placing(s, stamps.placeholder_time) + seq![
            appending(s, said),
        ]);
    } else {
        assert(step.events =~= Seq::empty());
    }
}

/// The events that say `text`, if there is any.
pub open spec fn saying(s: StateView, text: Seq<char>, time: Timestamp) -> Seq<ResponseEventView> {
    if text.len() > 0 {
        placing(s, time) + seq![appending(s, text)]
    } else {
        Seq::empty()
    }
}

proof fn lemma_opened_and_said(s: StateView, text: Seq<char>, time: Timestamp)
    ensures
        ({
            let spoken = streaming::spoken(s, text, time);
            let first = streaming::opened(spoken.state);
            &&& spoken.events + first.events == opening(s) + saying(s, text, time)
            &&& first.state.emitted_init
            &&& first.state.emitted_placeholder == (s.emitted_placeholder || text.len() > 0)
            &&& first.state.finished == s.finished
            &&& first.state.calls == s.calls
            &&& first.state.task_id == s.task_id
            &&& first.state.request_id == s.request_id
            &&& first.state.message_id == s.message_id
        }),
{
    let spoken = streaming::spoken(s, text, time);
    let first = streaming::opened(spoken.state);
    assert(spoken.events + first.events =~= opening(s) + saying(s, text, time));
}

/// The notes on the calls in flight, as one text.
pub open spec fn notes_text(
    s: StateView,
    in_flight: PendingCalls,
    stamps: StampsView,
) -> Seq<char> {
    if in_flight.is_empty() {
        Seq::empty()
    } else {
        text::joined(noted(s, pending::in_order(in_flight), stamps.calls), "\n"@)
    }
}

/// The messages that make those of the calls in flight that can be made.
pub open spec fn messages_for(
    s: StateView,
    in_flight: PendingCalls,
    stamps: StampsView,
) -> Seq<MessageView> {
    if in_flight.is_empty() {
        Seq::empty()
    } else {
        made(s, pending::in_order(in_flight), stamps.calls)
    }
}

/// A note is not empty.
proof fn lemma_notes_say_something(
    s: StateView,
    calls: Seq<PendingCallView>,
    stamps: Seq<CallStampView>,
)
    ensures
        noted(s, calls, stamps).len() > 0 <==> text::joined(
            noted(s, calls, stamps),
            "\n"@,
        ).len() > 0,
    decreases calls.len(),
{
    if calls.len() > 0 {
        let before = noted(s, calls.drop_last(), stamps);
        lemma_notes_say_something(s, calls.drop_last(), stamps);
        if let Err(note) = fate(s, calls.last(), stamps[calls.len() - 1]) {
            reveal_strlit("(model emitted a tool call with no function name)");
            reveal_strlit(")");
            assert(")"@.len() == 1);
            assert(note.len() > 0);
            text::law_joined(before, note, "\n"@);
        }
    }
}

proof fn lemma_rounded_off(s: StateView, reason: Seq<char>, stamps: StampsView)
    ensures
        ({
            let middle = streaming::rounded_off(s, reason, stamps);
            let plain = s.calls.is_empty() && reason != "tool_calls"@;
            let notes = notes_text(s, s.calls, stamps);
            &&& middle.events == (if plain {
                placing(s, stamps.placeholder_time)
            } else {
                Seq::empty()
            }) + calling(s, messages_for(s, s.calls, stamps)) + saying(
                s,
                notes,
                stamps.placeholder_time,
            )
            &&& middle.state == (StateView {
                emitted_placeholder: s.emitted_placeholder || plain || notes.len() > 0,
                calls: middle.state.calls,
                ..s
            })
            &&& middle.state.calls.is_empty()
        }),
{
    let time = stamps.placeholder_time;
    let calls = pending::in_order(s.calls);
    let middle = streaming::rounded_off(s, reason, stamps);
    let plain = s.calls.is_empty() && reason != "tool_calls"@;
    let notes = notes_text(s, s.calls, stamps);
    if s.calls.is_empty() {
        assert(middle.events =~= (if plain {
            placing(s, time)
        } else {
            Seq::empty()
        }) + calling(s, messages_for(s, s.calls, stamps)) + saying(s, notes, time));
    } else {
        lemma_fates(s, calls, stamps.calls);
        lemma_notes_say_something(s, calls, stamps.calls);
        let messages = made(s, calls, stamps.calls);
        let list = noted(s, calls, stamps.calls);
        let cleared = StateView { calls: Map::empty(), ..s };
        let added = streaming::with_messages(cleared, messages);
        let told = streaming::with_notes(cleared, list, time);
        assert(added.events =~= calling(s, messages));
        assert(told.events =~= saying(s, notes, time));
        assert(middle.events =~= added.events + told.events);
        assert(middle.events =~= Seq::empty() + calling(s, messages) + saying(s, notes, time));
    }
}

proof fn lemma_regrouped<A>(
    a: Seq<A>,
    b: Seq<A>,
    ab: Seq<A>,
    c: Seq<A>,
    d: Seq<A>,
    e: Seq<A>,
    x: Seq<A>,
    y: Seq<A>,
    z: Seq<A>,
)
    requires
        a + b == x + y,
        c == ab + d + e,
    ensures
        a + (b + (c + z)) == x + y + ab + d + e + z,
{
    assert(a + (b + (c + z)) =~= (a + b) + c + z);
    assert((x + y) + (ab + d + e) + z =~= x + y + ab + d + e + z);
}

proof fn lemma_finish_steps(s: StateView, chunk: ChunkView, stamps: StampsView, reason: Seq<char>)
    requires
        chunk.choices.len() > 0,
        chunk.choices[0].finish_reason == Some(reason),
    ensures
        ({
            let step = streaming::after_chunk(s, chunk, stamps);
            let spoken = streaming::spoken(
                streaming::heard(s, chunk),
                streaming::content_of(chunk),
                stamps.placeholder_time,
            );
            let first = streaming::opened(spoken.state);
            let middle = streaming::rounded_off(first.state, reason, stamps);
            let last = streaming::ended_by(middle.state, streaming::end_for(reason));
            &&& step.events == spoken.events + (first.events + (middle.events + last.events))
            &&& step.state == last.state
        }),
{
}

/// A chunk that finishes the reply brings, in this order and as far as each is
/// called for: the opening, what the chunk says, the calls that can be made,
/// the notes on those that cannot, one a line, and the end. Where the model
/// calls nothing, there is a message even where nothing was said. No call is
/// left in flight.
pub proof fn law_finish_brings_calls_and_end(
    s: StateView,
    chunk: ChunkView,
    stamps: StampsView,
    reason: Seq<char>,
)
    requires
        chunk.choices.len() > 0,
        chunk.choices[0].finish_reason == Some(reason),
    ensures
        ({
            let step = streaming::after_chunk(s, chunk, stamps);
            let said = words(chunk.choices[0]);
            let in_flight = calls_then(s.calls, chunk.choices[0]);
            let time = stamps.placeholder_time;
            let plain = in_flight.is_empty() && reason != "tool_calls"@;
            let notes = notes_text(s, in_flight, stamps);
            let now = StateView {
                emitted_placeholder: s.emitted_placeholder || said.len() > 0,
                ..s
            };
            &&& step.events == opening(s) + saying(s, said, time) + (if plain {
                placing(now, time)
            } else {
                Seq::empty()
            }) + calling(s, messages_for(s, in_flight, stamps)) + saying(now, notes, time) + ending(
                s,
                reason_meant(reason),
            )
            &&& step.state.finished
            &&& step.state.emitted_init
            &&& step.state.emitted_placeholder == (s.emitted_placeholder || said.len() > 0 || plain
                || notes.len() > 0)
            &&& step.state.calls.is_empty()
            &&& step.state.task_id == s.task_id
            &&& step.state.request_id == s.request_id
            &&& step.state.message_id == s.message_id
        }),
{
    let step = streaming::after_chunk(s, chunk, stamps);
    let said = words(chunk.choices[0]);
    let heard = streaming::heard(s, chunk);
    let time = stamps.placeholder_time;
    let spoken = streaming::spoken(heard, said, time);
    let first = streaming::opened(spoken.state);
    let middle = streaming::rounded_off(first.state, reason, stamps);
    let last = streaming::ended_by(middle.state, streaming::end_for(reason));
    let calls = pending::in_order(heard.calls);
    let now = StateView { emitted_placeholder: s.emitted_placeholder || said.len() > 0, ..s };
    let plain = heard.calls.is_empty() && reason != "tool_calls"@;
    let notes = notes_text(s, heard.calls, stamps);
    lemma_finish_steps(s, chunk, stamps, reason);
    lemma_opened_and_said(heard, said, time);
    lemma_rounded_off(first.state, reason, stamps);
    lemma_same_fates(s, first.state, calls, stamps.calls);
    assert(notes == notes_text(first.state, heard.calls, stamps));
    let placed = if plain {
        placing(now, time)
    } else {
        Seq::empty()
    };
    let called = calling(s, messages_for(s, heard.calls, stamps));
    let told = saying(now, notes, time);
    assert(placing(first.state, time) == placing(now, time));
    assert(saying(first.state, notes, time) == told);
    assert(calling(first.state, messages_for(first.state, heard.calls, stamps)) == called);
    assert(opening(heard) == opening(s));
    assert(saying(heard, said, time) == saying(s, said, time));
    assert(last.events == ending(s, reason_meant(reason)));
    lemma_regrouped(
        spoken.events,
        first.events,
        placed,
        middle.events,
        called,
        told,
        opening(s),
        saying(s, said, time),
        last.events,
    );
}

/// What is read in a chunk is what it says, character for character: the text
/// of its events is the content of its first alternative, and where the chunk
/// finishes the reply, the notes behind it.
pub proof fn law_chunk_text_is_its_content(s: StateView, chunk: ChunkView, stamps: StampsView)
    requires
        s.pending_init matches Some(init) ==> events::is_init(init),
        chunk.choices.len() > 0,
    ensures
        ({
            let log = streaming::after_chunk(s, chunk, stamps).events;
            let said = match chunk.choices[0].delta.content {
                Some(c) => c,
                None => Seq::empty(),
            };
            let in_flight = calls_then(s.calls, chunk.choices[0]);
            &&& chunk.choices[0].finish_reason is None ==> text_of(log) == said
            &&& chunk.choices[0].finish_reason is Some ==> text_of(log) == said + notes_text(
                s,
                in_flight,
                stamps,
            )
        }),
{
    let step = streaming::after_chunk(s, chunk, stamps);
    let now = streaming::heard(s, chunk);
    let content = streaming::content_of(chunk);
    let time = stamps.placeholder_time;
    let finish = chunk.choices[0].finish_reason;
    let said = streaming::spoken(now, content, time);
    lemma_text_of_spoken(now, content, time);
    lemma_text_of_closed(said.state, finish, stamps);
    lemma_same_notes(now, said.state, stamps);
    lemma_fates(now, pending::in_order(now.calls), stamps.calls);
    lemma_same_fates(s, now, pending::in_order(now.calls), stamps.calls);
    let rest = streaming::closed(said.state, finish, stamps);
    lemma_text_concat(said.events, rest.events);
    assert(step.events =~= said.events + rest.events);
    assert(words(chunk.choices[0]) == content);
    if finish is Some {
        assert(text_of(step.events) =~= content + notes_on(now, stamps));
    } else {
        assert(text_of(step.events) =~= content);
    }
}

/// The events that a chunk puts behind earlier ones read as its content, where
/// the chunk does not finish the reply.
pub proof fn lemma_new_text(
    s: StateView,
    chunk: ChunkView,
    stamps: StampsView,
    earlier: Seq<ResponseEventView>,
    later: Seq<ResponseEventView>,
)
    requires
        s.pending_init matches Some(init) ==> events::is_init(init),
        chunk.choices.len() > 0,
        chunk.choices[0].finish_reason is None,
        later == earlier + streaming::after_chunk(s, chunk, stamps).events,
    ensures
        text_of(later) == text_of(earlier) + (match chunk.choices[0].delta.content {
            Some(c) => c,
            None => Seq::empty(),
        }),
{
    law_chunk_text_is_its_content(s, chunk, stamps);
    lemma_text_concat(earlier, streaming::after_chunk(s, chunk, stamps).events);
}

// ---- What a frame brings ---------------------------------------------------

/// The data of a frame is read without the white space around it: `[DONE]` says
/// that the endpoint is done, and all else is a chunk or makes no sense.
pub proof fn law_frame_data(before: Seq<char>, data: Seq<char>, after: Seq<char>)
    requires
        data.len() > 0,
        !text::is_white_space(data[0]),
        !text::is_white_space(data.last()),
        forall|i: int| 0 <= i < before.len() ==> text::is_white_space(#[trigger] before[i]),
        forall|i: int| 0 <= i < after.len() ==> text::is_white_space(#[trigger] after[i]),
    ensures
        ({
            let read = streaming::data_in(before + data + after);
            &&& read is Done <==> data == "[DONE]"@
            &&& data != "[DONE]"@ ==> match replies::chunk_in(data) {
                Some(chunk) => read == FrameDataView::Chunk(chunk),
                None => read is Malformed,
            }
        }),
{
    text::lemma_trimmed_padded(before, data, after);
}

/// Data that is all white space does not say that the endpoint is done.
pub proof fn law_blank_frame_data(data: Seq<char>)
    requires
        forall|i: int| 0 <= i < data.len() ==> text::is_white_space(#[trigger] data[i]),
    ensures
        match replies::chunk_in(Seq::empty()) {
            Some(chunk) => streaming::data_in(data) == FrameDataView::Chunk(chunk),
            None => streaming::data_in(data) is Malformed,
        },
{
    text::law_blank_text_is_trimmed_away(data);
    assert(text::trimmed(data) =~= Seq::empty());
    reveal_strlit("[DONE]");
    assert("[DONE]"@.len() == 6);
}

/// What a frame brings: the end of the stream, like `[DONE]`, ends a reply that
/// has not ended, and so does a failure, which is told with its cause; a chunk
/// brings what it brings; and all else brings nothing. A reply is opened before
/// it is ended.
pub proof fn law_frame_brings(s: StateView, frame: FrameView, stamps: StampsView)
    ensures
        ({
            let step = streaming::after_frame(s, frame, stamps);
            let over = StateView {
                emitted_init: true,
                finished: true,
                pending_init: if s.emitted_init {
                    s.pending_init
                } else {
                    None
                },
                ..s
            };
            match frame {
                FrameView::Eof => {
                    &&& step.events == opening(s) + ending(s, FinishReasonView::Done)
                    &&& step.state == over
                },
                FrameView::Open => step.events.len() == 0 && step.state == s,
                FrameView::Message(data) => match streaming::data_in(data) {
                    FrameDataView::Done => {
                        &&& step.events == opening(s) + ending(s, FinishReasonView::Done)
                        &&& step.state == over
                    },
                    FrameDataView::Chunk(chunk) => step == streaming::after_chunk(
                        s,
                        chunk,
                        stamps,
                    ),
                    FrameDataView::Malformed => step.events.len() == 0 && step.state == s,
                },
                FrameView::Error(cause) => {
                    &&& step.events == opening(s) + ending(
                        s,
                        FinishReasonView::InternalError(
                            InternalErrorView { message: "local endpoint stream error: "@ + cause },
                        ),
                    )
                    &&& step.state == over
                },
            }
        }),
{
    let step = streaming::after_frame(s, frame, stamps);
    match frame {
        FrameView::Eof => {
            assert(step.events =~= opening(s) + ending(s, FinishReasonView::Done));
        },
        FrameView::Message(data) => {
            if streaming::data_in(data) is Done {
                assert(step.events =~= opening(s) + ending(s, FinishReasonView::Done));
            }
        },
        FrameView::Error(cause) => {
            assert(step.events =~= opening(s) + ending(
                s,
                FinishReasonView::InternalError(
                    InternalErrorView { message: "local endpoint stream error: "@ + cause },
                ),
            ));
        },
        FrameView::Open => {},
    }
}

// ---- What a whole reply says -----------------------------------------------

/// The alternative that counts in a frame, where the frame is a chunk that has
/// one.
pub open spec fn choice_of(frame: FrameView) -> Option<ChoiceView> {
    match frame {
        FrameView::Message(data) => match streaming::data_in(data) {
            FrameDataView::Chunk(chunk) => if chunk.choices.len() > 0 {
                Some(chunk.choices[0])
            } else {
                None
            },
            _ => None,
        },
        _ => None,
    }
}

/// One of the frames ends the reply.
pub open spec fn has_ended(ticks: Seq<Tick>) -> bool {
    exists|i: int| 0 <= i < ticks.len() && ends_reply(#[trigger] ticks[i].frame)
}

/// All that is said in the frames up to the one that ends the reply, one after
/// the other.
pub open spec fn said_by(ticks: Seq<Tick>) -> Seq<char>
    decreases ticks.len(),
{
    if ticks.len() == 0 {
        Seq::empty()
    } else {
        let before = said_by(ticks.drop_last());
        match choice_of(ticks.last().frame) {
            Some(choice) => if has_ended(ticks.drop_last()) {
                before
            } else {
                match choice.delta.content {
                    Some(c) => before + c,
                    None => before,
                }
            },
            None => before,
        }
    }
}

/// All the pieces of calls in the frames, one after the other.
pub open spec fn pieces_in(ticks: Seq<Tick>) -> Seq<ToolCallDeltaView>
    decreases ticks.len(),
{
    if ticks.len() == 0 {
        Seq::empty()
    } else {
        let before = pieces_in(ticks.drop_last());
        match choice_of(ticks.last().frame) {
            Some(choice) => match choice.delta.tool_calls {
                Some(deltas) => before + deltas,
                None => before,
            },
            None => before,
        }
    }
}

/// The notes on the calls that cannot be made, where a finish reason ended the
/// reply.
pub open spec fn notes_by(s: StateView, ticks: Seq<Tick>) -> Seq<char>
    decreases ticks.len(),
{
    if ticks.len() == 0 {
        Seq::empty()
    } else if has_ended(ticks.drop_last()) {
        notes_by(s, ticks.drop_last())
    } else {
        match choice_of(ticks.last().frame) {
            Some(choice) => if choice.finish_reason is Some {
                notes_text(
                    s,
                    pending::absorbed(Map::empty(), pieces_in(ticks)),
                    ticks.last().stamps,
                )
            } else {
                Seq::empty()
            },
            None => Seq::empty(),
        }
    }
}

proof fn lemma_no_notes_yet(s: StateView, ticks: Seq<Tick>)
    requires
        !has_ended(ticks),
    ensures
        notes_by(s, ticks).len() == 0,
{
    if ticks.len() > 0 {
        let n = ticks.len() - 1;
        assert(!ends_reply(ticks[n].frame));
        lemma_not_ended_before(ticks);
    }
}

proof fn lemma_not_ended_before(ticks: Seq<Tick>)
    requires
        ticks.len() > 0,
        !has_ended(ticks),
    ensures
        !has_ended(ticks.drop_last()),
{
    let before = ticks.drop_last();
    if has_ended(before) {
        let i = choose|i: int| 0 <= i < before.len() && ends_reply(#[trigger] before[i].frame);
        assert(ends_reply(ticks[i].frame));
    }
}

/// While a reply has not ended, the calls in flight are those of all the pieces
/// that came, and the reply goes by the ids that it began with.
pub proof fn law_pieces_add_up(
    request: RequestView,
    task_id: Seq<char>,
    request_id: Seq<char>,
    message_id: Seq<char>,
    ticks: Seq<Tick>,
)
    requires
        !has_ended(ticks),
    ensures
        ({
            let s0 = local_dispatch::fresh_state(request, task_id, request_id, message_id);
            let s = run(s0, ticks).state;
            &&& s.calls == pending::absorbed(Map::empty(), pieces_in(ticks))
            &&& s.task_id == task_id
            &&& s.request_id == request_id
            &&& s.message_id == message_id
            &&& !s.finished
        }),
    decreases ticks.len(),
{
    let s0 = local_dispatch::fresh_state(request, task_id, request_id, message_id);
    lemma_run(s0, ticks);
    law_reply_ends(request, task_id, request_id, message_id, ticks);
    if ticks.len() > 0 {
        let shorter = ticks.drop_last();
        let n = ticks.len() - 1;
        let tick = ticks.last();
        lemma_not_ended_before(ticks);
        law_pieces_add_up(request, task_id, request_id, message_id, shorter);
        assert(!ends_reply(ticks[n].frame));
        let s = run(s0, shorter).state;
        law_frame_brings(s, tick.frame, tick.stamps);
        if let FrameView::Message(data) = tick.frame {
            if let FrameDataView::Chunk(chunk) = streaming::data_in(data) {
                if chunk.choices.len() > 0 {
                    law_chunk_says_its_words(s, chunk, tick.stamps);
                    if let Some(deltas) = chunk.choices[0].delta.tool_calls {
                        pending::law_batches_do_not_matter(
                            Map::empty(),
                            pieces_in(shorter),
                            deltas,
                        );
                    }
                }
            }
        }
    }
}

/// The text of a reply is what the endpoint said, character for character: the
/// contents of its chunks one after the other, up to the end of the reply, and
/// behind them the notes on the calls that cannot be made.
pub proof fn law_reply_reads_as_it_was_said(
    request: RequestView,
    task_id: Seq<char>,
    request_id: Seq<char>,
    message_id: Seq<char>,
    ticks: Seq<Tick>,
)
    ensures
        ({
            let s0 = local_dispatch::fresh_state(request, task_id, request_id, message_id);
            text_of(run(s0, ticks).events) == said_by(ticks) + notes_by(s0, ticks)
        }),
    decreases ticks.len(),
{
    let s0 = local_dispatch::fresh_state(request, task_id, request_id, message_id);
    let whole = said_by(ticks) + notes_by(s0, ticks);
    if ticks.len() == 0 {
        assert(text_of(run(s0, ticks).events) =~= whole);
    } else {
        let shorter = ticks.drop_last();
        let before = run(s0, shorter);
        law_reply_reads_as_it_was_said(request, task_id, request_id, message_id, shorter);
        law_reply_ends(request, task_id, request_id, message_id, shorter);
        if !before.state.finished {
            let frame = ticks.last().frame;
            let stamps = ticks.last().stamps;
            let next = streaming::after_frame(before.state, frame, stamps);
            assert(!has_ended(shorter));
            lemma_no_notes_yet(s0, shorter);
            assert(text_of(before.events) =~= said_by(shorter));
            law_pieces_add_up(request, task_id, request_id, message_id, shorter);
            lemma_run_init(s0, shorter);
            lemma_text_concat(before.events, next.events);
            law_frame_text_is_kept(before.state, frame, stamps);
            if let FrameView::Message(data) = frame {
                if let FrameDataView::Chunk(chunk) = streaming::data_in(data) {
                    if chunk.choices.len() > 0 {
                        law_chunk_text_is_its_content(before.state, chunk, stamps);
                        let choice = chunk.choices[0];
                        if let Some(deltas) = choice.delta.tool_calls {
                            pending::law_batches_do_not_matter(
                                Map::empty(),
                                pieces_in(shorter),
                                deltas,
                            );
                        }
                        let in_flight = calls_then(before.state.calls, choice);
                        assert(in_flight == pending::absorbed(Map::empty(), pieces_in(ticks)));
                        lemma_same_fates(
                            s0,
                            before.state,
                            pending::in_order(in_flight),
                            stamps.calls,
                        );
                        assert(notes_text(s0, in_flight, stamps) == notes_text(
                            before.state,
                            in_flight,
                            stamps,
                        ));
                    }
                }
            }
            assert(text_of(run(s0, ticks).events) =~= whole);
        } else {
            assert(has_ended(shorter));
        }
    }
}

// ---- The steps of a reply --------------------------------------------------

/// The steps of a reply, each by itself: it is opened once, by the event that
/// waits for it; its message is placed once; text is appended to that message;
/// and the calls in flight are made or noted, and none is left.
pub proof fn law_steps_of_a_reply(
    s: StateView,
    text: Seq<char>,
    time: Timestamp,
    stamps: StampsView,
)
    ensures
        streaming::opened(s).events == opening(s),
        streaming::opened(s).state == (StateView {
            emitted_init: true,
            pending_init: if s.emitted_init {
                s.pending_init
            } else {
                None
            },
            ..s
        }),
        streaming::with_placeholder(s, time).events == placing(s, time),
        streaming::with_placeholder(s, time).state == (StateView {
            emitted_placeholder: true,
            ..s
        }),
        streaming::append_event(s, text) == appending(s, text),
        seq![streaming::done_reply()] == ending(
            StateView { finished: false, ..s },
            FinishReasonView::Done,
        ),
        streaming::calls_made(s, stamps).events == calling(
            s,
            messages_for(s, s.calls, stamps),
        ) + saying(s, notes_text(s, s.calls, stamps), stamps.placeholder_time),
        streaming::calls_made(s, stamps).state.calls.is_empty(),
{
    assert(streaming::opened(s).events =~= opening(s));
    lemma_rounded_off(s, "tool_calls"@, stamps);
    let made = calling(s, messages_for(s, s.calls, stamps));
    assert(Seq::<ResponseEventView>::empty() + made =~= made);
}

/// Taking in a chunk or a frame with fresh ids and times is taking it in with
/// some ids and times: the state and the events are those that they bring, and
/// earlier events stay. The ids have the form of fresh ones, and there is one
/// for each call that is to be made.
pub proof fn law_fresh_stamps_change_nothing_else(
    s: StateView,
    chunk: ChunkView,
    frame: FrameView,
    stamps: StampsView,
    after: StateView,
    old_events: Seq<ResponseEventView>,
    new_events: Seq<ResponseEventView>,
)
    ensures
        streaming::chunk_taken(s, chunk, stamps, after, old_events, new_events) ==> {
            &&& after == streaming::after_chunk(s, chunk, stamps).state
            &&& new_events == old_events + streaming::after_chunk(s, chunk, stamps).events
            &&& chunk.choices.len() > 0 && chunk.choices[0].finish_reason is Some
                ==> pending::in_order(calls_then(s.calls, chunk.choices[0])).len()
                <= stamps.calls.len()
            &&& forall|i: int|
                0 <= i < stamps.calls.len() ==> mint::is_minted_id(
                    (#[trigger] stamps.calls[i]).call_id,
                ) && mint::is_minted_id(stamps.calls[i].message_id) && mint::is_moment(
                    stamps.calls[i].time,
                )
            &&& mint::is_moment(stamps.placeholder_time)
        },
        streaming::frame_taken(s, frame, stamps, after, new_events) ==> {
            &&& after == streaming::after_frame(s, frame, stamps).state
            &&& new_events == streaming::after_frame(s, frame, stamps).events
            &&& forall|i: int|
                0 <= i < stamps.calls.len() ==> mint::is_minted_id(
                    (#[trigger] stamps.calls[i]).call_id,
                ) && mint::is_minted_id(stamps.calls[i].message_id) && mint::is_moment(
                    stamps.calls[i].time,
                )
            &&& mint::is_moment(stamps.placeholder_time)
        },
{
}

} // verus!
