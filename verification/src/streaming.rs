//! A streamed reply: each frame that the endpoint sends becomes events for
//! the agent's interface.
//!
//!   * The first text opens the reply and adds an empty message to the task.
//!   * Each text is appended to that message.
//!   * Tool calls are assembled piece by piece and added once the model has
//!     finished.
//!   * A finish reason, the `[DONE]` frame, the end of the stream or an error
//!     ends the reply.

use std::collections::BTreeMap;
use vstd::prelude::*;
use vstd::string::StringExecFns;

use crate::agent::Action;
use crate::agent::ActionView;
use crate::agent::AppendToMessageContent;
use crate::agent::AppendToMessageContentView;
use crate::agent::FieldMask;
use crate::agent::FieldMaskView;
use crate::agent::FinishReason;
use crate::agent::FinishReasonView;
use crate::agent::Message;
use crate::agent::MessageType;
use crate::agent::MessageTypeView;
use crate::agent::MessageView;
use crate::agent::ResponseEvent;
use crate::agent::ResponseEventView;
use crate::agent::Timestamp;
use crate::agent::ToolCall;
use crate::agent::ToolCallView;
use crate::conversation;
use crate::events;
use crate::mint;
use crate::pending;
use crate::pending::PendingCallView;
use crate::pending::PendingToolCall;
use crate::replies;
use crate::replies::ChunkView;
use crate::replies::OpenAiStreamChoice;
use crate::replies::OpenAiStreamChunk;
use crate::replies::OpenAiStreamToolCallDelta;
use crate::stream_laws;
use crate::text;
use crate::text::same;
use crate::tools;

verus! {

// ---- State -----------------------------------------------------------------

/// What is carried from frame to frame.
pub struct StreamingState {
    pub task_id: String,
    pub request_id: String,
    /// The id of the message that the reply's text is appended to.
    pub message_id: String,
    pub emitted_init: bool,
    pub emitted_placeholder: bool,
    pub finished: bool,
    /// The event that opens the reply, until it is sent.
    pub pending_init: Option<ResponseEvent>,
    /// The calls in flight, by their index.
    pub pending_tool_calls: BTreeMap<usize, PendingToolCall>,
}

/// What [`StreamingState`] holds.
#[verifier::ext_equal]
pub struct StateView {
    pub task_id: Seq<char>,
    pub request_id: Seq<char>,
    pub message_id: Seq<char>,
    pub emitted_init: bool,
    pub emitted_placeholder: bool,
    pub finished: bool,
    pub pending_init: Option<ResponseEventView>,
    pub calls: pending::PendingCalls,
}

impl DeepView for StreamingState {
    type V = StateView;

    open spec fn deep_view(&self) -> StateView {
        StateView {
            task_id: self.task_id@,
            request_id: self.request_id@,
            message_id: self.message_id@,
            emitted_init: self.emitted_init,
            emitted_placeholder: self.emitted_placeholder,
            finished: self.finished,
            pending_init: self.pending_init.deep_view(),
            calls: pending::calls_of(self.pending_tool_calls@),
        }
    }
}

/// Ids and the time for the message of one tool call.
#[derive(Debug, Clone)]
pub struct CallStamp {
    /// For a call that came without an id.
    pub call_id: String,
    pub message_id: String,
    pub time: Timestamp,
}

/// What [`CallStamp`] holds.
#[verifier::ext_equal]
pub struct CallStampView {
    pub call_id: Seq<char>,
    pub message_id: Seq<char>,
    pub time: Timestamp,
}

impl DeepView for CallStamp {
    type V = CallStampView;

    open spec fn deep_view(&self) -> CallStampView {
        CallStampView { call_id: self.call_id@, message_id: self.message_id@, time: self.time }
    }
}

/// The ids and times that one frame may need: one stamp for each call in
/// flight, in their order.
#[derive(Debug, Clone)]
pub struct Stamps {
    pub placeholder_time: Timestamp,
    pub calls: Vec<CallStamp>,
}

/// What [`Stamps`] holds.
#[verifier::ext_equal]
pub struct StampsView {
    pub placeholder_time: Timestamp,
    pub calls: Seq<CallStampView>,
}

impl DeepView for Stamps {
    type V = StampsView;

    open spec fn deep_view(&self) -> StampsView {
        StampsView { placeholder_time: self.placeholder_time, calls: self.calls.deep_view() }
    }
}

/// The ids have the form of fresh ones, and the times are moments.
pub open spec fn freshly_minted(stamps: StampsView) -> bool {
    &&& mint::is_moment(stamps.placeholder_time)
    &&& forall|i: int|
        0 <= i < stamps.calls.len() ==> {
            let stamp = #[trigger] stamps.calls[i];
            &&& mint::is_minted_id(stamp.call_id)
            &&& mint::is_minted_id(stamp.message_id)
            &&& mint::is_moment(stamp.time)
        }
}

/// A new state, and the events on the way to it.
pub struct Step {
    pub state: StateView,
    pub events: Seq<ResponseEventView>,
}

/// Nothing happens.
pub open spec fn stay(s: StateView) -> Step {
    Step { state: s, events: Seq::empty() }
}

/// `first`, and what `rest` makes of the state it leads to.
pub open spec fn and_next(first: Step, rest: spec_fn(StateView) -> Step) -> Step {
    let next = rest(first.state);
    Step { state: next.state, events: first.events + next.events }
}

// ---- Parts of a reply ------------------------------------------------------

/// Opens the reply, unless that has happened.
pub open spec fn opened(s: StateView) -> Step {
    if s.emitted_init {
        stay(s)
    } else {
        Step {
            state: StateView { emitted_init: true, pending_init: None, ..s },
            events: match s.pending_init {
                Some(init) => seq![init],
                None => Seq::empty(),
            },
        }
    }
}

/// The empty message that the reply's text is appended to.
pub open spec fn placeholder_event(s: StateView, time: Timestamp) -> ResponseEventView {
    events::add_messages_event(
        s.task_id,
        seq![
            events::agent_output_message(
                s.message_id,
                s.task_id,
                s.request_id,
                Some(time),
                Seq::empty(),
            ),
        ],
    )
}

/// Adds the empty message, unless that has happened.
pub open spec fn with_placeholder(s: StateView, time: Timestamp) -> Step {
    if s.emitted_placeholder {
        stay(s)
    } else {
        Step {
            state: StateView { emitted_placeholder: true, ..s },
            events: seq![placeholder_event(s, time)],
        }
    }
}

/// The field that text is appended to.
pub const TEXT_FIELD: &'static str = "message.agent_output.text";

/// Appends `delta` to the reply's message.
pub open spec fn append_event(s: StateView, delta: Seq<char>) -> ResponseEventView {
    events::action_event(
        ActionView::AppendToMessageContent(
            AppendToMessageContentView {
                task_id: s.task_id,
                message: Some(
                    events::agent_output_message(
                        s.message_id,
                        s.task_id,
                        s.request_id,
                        None,
                        delta,
                    ),
                ),
                mask: Some(FieldMaskView { paths: seq![TEXT_FIELD@] }),
            },
        ),
    )
}

/// Appends `delta` to a message that is there.
pub open spec fn appended(s: StateView, delta: Seq<char>) -> Step {
    Step { state: s, events: seq![append_event(s, delta)] }
}

/// Ends the reply, unless that has happened.
pub open spec fn ended_by(s: StateView, event: ResponseEventView) -> Step {
    if s.finished {
        stay(s)
    } else {
        Step { state: StateView { finished: true, ..s }, events: seq![event] }
    }
}

/// The end of a reply that is complete.
pub open spec fn done_reply() -> ResponseEventView {
    events::finished_event(FinishReasonView::Done)
}

impl StreamingState {
    pub fn maybe_push_init(&mut self, events: &mut Vec<ResponseEvent>)
        ensures
            final(self).deep_view() == opened(old(self).deep_view()).state,
            final(events).deep_view() == old(events).deep_view() + opened(
                old(self).deep_view(),
            ).events,
    {
        let ghost prior = events.deep_view();
        if !self.emitted_init {
            let init: Option<ResponseEvent> = self.pending_init.take();
            if let Some(init) = init {
                events.push(init);
                assert(events.deep_view() =~= prior + seq![init.deep_view()]);
            } else {
                assert(events.deep_view() =~= prior + Seq::empty());
            }
            self.emitted_init = true;
        } else {
            assert(events.deep_view() =~= prior + Seq::empty());
        }
    }

    /// Adds the empty message, stamped with `time`, unless that has happened.
    pub fn maybe_push_placeholder(&mut self, time: Timestamp, events: &mut Vec<ResponseEvent>)
        ensures
            final(self).deep_view() == with_placeholder(old(self).deep_view(), time).state,
            final(events).deep_view() == old(events).deep_view() + with_placeholder(
                old(self).deep_view(),
                time,
            ).events,
    {
        let ghost prior = events.deep_view();
        if self.emitted_placeholder {
            assert(events.deep_view() =~= prior + Seq::empty());
            return;
        }
        let placeholder: Message = events::build_text_message(
            self.message_id.clone(),
            self.task_id.clone(),
            self.request_id.clone(),
            Some(time),
            String::new(),
        );
        let messages: Vec<Message> = vec![placeholder];
        assert(messages.deep_view() =~= seq![placeholder.deep_view()]);
        let event: ResponseEvent = events::build_add_messages_event(
            self.task_id.as_str(),
            messages,
        );
        events.push(event);
        self.emitted_placeholder = true;
        assert(events.deep_view() =~= prior + seq![event.deep_view()]);
    }

    /// The event that grows the reply's message by `delta`.
    pub fn append_text_event(&self, delta: &str) -> (r: ResponseEvent)
        ensures
            r.deep_view() == append_event(self.deep_view(), delta@),
    {
        let message: Message = events::build_text_message(
            self.message_id.clone(),
            self.task_id.clone(),
            self.request_id.clone(),
            None,
            delta.to_string(),
        );
        let paths: Vec<String> = vec![TEXT_FIELD.to_string()];
        assert(paths.deep_view() =~= seq![TEXT_FIELD@]);
        events::wrap_action(
            Action::AppendToMessageContent(
                AppendToMessageContent {
                    task_id: self.task_id.clone(),
                    message: Some(message),
                    mask: Some(FieldMask { paths }),
                },
            ),
        )
    }

    pub fn done_event(&self) -> (r: ResponseEvent)
        ensures
            r.deep_view() == done_reply(),
    {
        events::build_finished_event(FinishReason::Done)
    }

    fn push_append(&self, delta: &str, events: &mut Vec<ResponseEvent>)
        ensures
            final(events).deep_view() == old(events).deep_view() + appended(
                self.deep_view(),
                delta@,
            ).events,
    {
        let ghost prior = events.deep_view();
        let event: ResponseEvent = self.append_text_event(delta);
        events.push(event);
        assert(events.deep_view() =~= prior + seq![event.deep_view()]);
    }

    fn push_end(&mut self, event: ResponseEvent, events: &mut Vec<ResponseEvent>)
        ensures
            final(self).deep_view() == ended_by(old(self).deep_view(), event.deep_view()).state,
            final(events).deep_view() == old(events).deep_view() + ended_by(
                old(self).deep_view(),
                event.deep_view(),
            ).events,
    {
        let ghost prior = events.deep_view();
        if !self.finished {
            events.push(event);
            self.finished = true;
            assert(events.deep_view() =~= prior + seq![event.deep_view()]);
        } else {
            assert(events.deep_view() =~= prior + Seq::empty());
        }
    }
}

// ---- Tool calls ------------------------------------------------------------

/// The arguments of a call. None at all stand for no arguments.
pub open spec fn arguments_of(call: PendingCallView) -> Seq<char> {
    if text::trimmed(call.arguments).len() == 0 {
        "{}"@
    } else {
        call.arguments
    }
}

/// The id of a call. The interface only cares that a call and its result go
/// by the same one.
pub open spec fn id_of(call: PendingCallView, stamp: CallStampView) -> Seq<char> {
    if call.id.len() == 0 {
        stamp.call_id
    } else {
        call.id
    }
}

/// How many bytes of a call's arguments a note shows.
pub const NOTED_ARGUMENTS: usize = 200;

/// What is said of a call that cannot be made.
pub open spec fn call_note(call: PendingCallView) -> Seq<char> {
    "(model called unknown or malformed tool `"@ + call.name + "` with args: "@ + text::clipped(
        arguments_of(call),
        NOTED_ARGUMENTS as nat,
    ) + ")"@
}

/// What becomes of a call: a message that makes it, or else a note.
pub open spec fn settled(s: StateView, call: PendingCallView, stamp: CallStampView) -> Result<
    MessageView,
    Seq<char>,
> {
    if call.name.len() == 0 {
        Err("(model emitted a tool call with no function name)"@)
    } else {
        match tools::built_tool(call.name, arguments_of(call)) {
            Some(tool) => Ok(
                MessageView {
                    id: stamp.message_id,
                    task_id: s.task_id,
                    request_id: s.request_id,
                    server_message_data: Seq::empty(),
                    citations: Seq::empty(),
                    timestamp: Some(stamp.time),
                    message: Some(
                        MessageTypeView::ToolCall(
                            ToolCallView { tool_call_id: id_of(call, stamp), tool: Some(tool) },
                        ),
                    ),
                },
            ),
            None => Err(call_note(call)),
        }
    }
}

/// What becomes of each of the calls.
pub open spec fn all_settled(
    s: StateView,
    calls: Seq<PendingCallView>,
    stamps: Seq<CallStampView>,
) -> Seq<Result<MessageView, Seq<char>>> {
    Seq::new(calls.len(), |i: int| settled(s, calls[i], stamps[i]))
}

/// The messages that make calls.
pub open spec fn call_messages(settled: Seq<Result<MessageView, Seq<char>>>) -> Seq<MessageView> {
    conversation::chosen(
        settled,
        |r: Result<MessageView, Seq<char>>|
            match r {
                Ok(m) => Some(m),
                Err(_) => None,
            },
    )
}

/// The notes on calls that cannot be made.
pub open spec fn call_notes(settled: Seq<Result<MessageView, Seq<char>>>) -> Seq<Seq<char>> {
    conversation::chosen(
        settled,
        |r: Result<MessageView, Seq<char>>|
            match r {
                Ok(_) => None,
                Err(note) => Some(note),
            },
    )
}

/// Adds messages to the task, if there are any.
pub open spec fn with_messages(s: StateView, messages: Seq<MessageView>) -> Step {
    Step {
        state: s,
        events: if messages.len() > 0 {
            seq![events::add_messages_event(s.task_id, messages)]
        } else {
            Seq::empty()
        },
    }
}

/// Appends notes to the reply's text, if there are any.
pub open spec fn with_notes(s: StateView, notes: Seq<Seq<char>>, time: Timestamp) -> Step {
    if notes.len() > 0 {
        and_next(
            with_placeholder(s, time),
            |s: StateView| appended(s, text::joined(notes, "\n"@)),
        )
    } else {
        stay(s)
    }
}

/// Makes the calls in flight, in the order of their indices, and notes those
/// that cannot be made.
pub open spec fn calls_made(s: StateView, stamps: StampsView) -> Step {
    if s.calls.is_empty() {
        stay(s)
    } else {
        let settled = all_settled(s, pending::in_order(s.calls), stamps.calls);
        and_next(
            with_messages(
                StateView { calls: Map::empty(), ..s },
                call_messages(settled),
            ),
            |s: StateView| with_notes(s, call_notes(settled), stamps.placeholder_time),
        )
    }
}

/// There is a stamp for each call in flight.
pub open spec fn enough_stamps(s: StateView, stamps: StampsView) -> bool {
    pending::in_order(s.calls).len() <= stamps.calls.len()
}

impl StreamingState {
    fn settle(&self, call: &PendingToolCall, stamp: &CallStamp) -> (r: Result<Message, String>)
        ensures
            match r {
                Ok(m) => settled(self.deep_view(), call.deep_view(), stamp.deep_view()) == Ok::<
                    MessageView,
                    Seq<char>,
                >(m.deep_view()),
                Err(note) => settled(self.deep_view(), call.deep_view(), stamp.deep_view())
                    == Err::<MessageView, Seq<char>>(note@),
            },
    {
        if call.name.as_str().is_empty() {
            return Err("(model emitted a tool call with no function name)".to_string());
        }
        let args: String = if call.arguments.as_str().trim().is_empty() {
            "{}".to_string()
        } else {
            call.arguments.clone()
        };
        match tools::try_build_warp_tool(call.name.as_str(), args.as_str()) {
            Some(tool) => {
                let tool_call_id: String = if call.id.as_str().is_empty() {
                    stamp.call_id.clone()
                } else {
                    call.id.clone()
                };
                let citations: Vec<String> = Vec::new();
                assert(citations.deep_view() =~= Seq::empty());
                Ok(
                    Message {
                        id: stamp.message_id.clone(),
                        task_id: self.task_id.clone(),
                        request_id: self.request_id.clone(),
                        server_message_data: String::new(),
                        citations,
                        timestamp: Some(stamp.time),
                        message: Some(
                            MessageType::ToolCall(ToolCall { tool_call_id, tool: Some(tool) }),
                        ),
                    },
                )
            },
            None => {
                let mut note = "(model called unknown or malformed tool `".to_string();
                note.append(call.name.as_str());
                note.append("` with args: ");
                note.append(text::truncate_for_log(args.as_str(), NOTED_ARGUMENTS));
                note.append(")");
                Err(note)
            },
        }
    }

    fn settle_all(&self, calls: &Vec<PendingToolCall>, stamps: &Vec<CallStamp>) -> (r: (
        Vec<Message>,
        Vec<String>,
    ))
        requires
            calls@.len() <= stamps@.len(),
        ensures
            ({
                let settled = all_settled(
                    self.deep_view(),
                    calls.deep_view(),
                    stamps.deep_view(),
                );
                &&& r.0.deep_view() == call_messages(settled)
                &&& r.1.deep_view() == call_notes(settled)
            }),
    {
        let ghost all = all_settled(self.deep_view(), calls.deep_view(), stamps.deep_view());
        let mut messages: Vec<Message> = Vec::new();
        let mut notes: Vec<String> = Vec::new();
        let mut i: usize = 0;
        proof {
            assert(all.take(0) =~= Seq::empty());
            assert(messages.deep_view() =~= Seq::empty());
            assert(notes.deep_view() =~= Seq::empty());
        }
        while i < calls.len()
            invariant
                i <= calls@.len(),
                calls@.len() <= stamps@.len(),
                all == all_settled(self.deep_view(), calls.deep_view(), stamps.deep_view()),
                messages.deep_view() == call_messages(all.take(i as int)),
                notes.deep_view() == call_notes(all.take(i as int)),
            decreases calls@.len() - i,
        {
            let ghost prior_messages = messages.deep_view();
            let ghost prior_notes = notes.deep_view();
            proof {
                assert(all.take(i + 1).drop_last() =~= all.take(i as int));
                assert(all.take(i + 1).last() == all[i as int]);
                assert(all[i as int] == settled(
                    self.deep_view(),
                    calls[i as int].deep_view(),
                    stamps[i as int].deep_view(),
                ));
            }
            match self.settle(&calls[i], &stamps[i]) {
                Ok(m) => {
                    messages.push(m);
                    assert(messages.deep_view() =~= prior_messages.push(m.deep_view()));
                },
                Err(note) => {
                    notes.push(note);
                    assert(notes.deep_view() =~= prior_notes.push(note@));
                },
            }
            i = i + 1;
        }
        assert(all.take(i as int) =~= all);
        (messages, notes)
    }

    /// Adds the pieces that a chunk brings to the calls in flight.
    pub fn absorb_tool_call_deltas(&mut self, deltas: &Vec<OpenAiStreamToolCallDelta>)
        ensures
            final(self).deep_view() == (StateView {
                calls: pending::absorbed(old(self).deep_view().calls, deltas.deep_view()),
                ..old(self).deep_view()
            }),
    {
        pending::absorb(&mut self.pending_tool_calls, deltas);
    }

    /// Makes the calls in flight: one event adds a message for each. Calls of
    /// unknown tools, or with arguments that cannot be read, are noted in the
    /// reply's text, so that the user sees what the model tried.
    pub fn emit_pending_tool_calls(&mut self, stamps: &Stamps, events: &mut Vec<ResponseEvent>)
        requires
            enough_stamps(old(self).deep_view(), stamps.deep_view()),
        ensures
            final(self).deep_view() == calls_made(
                old(self).deep_view(),
                stamps.deep_view(),
            ).state,
            final(events).deep_view() == old(events).deep_view() + calls_made(
                old(self).deep_view(),
                stamps.deep_view(),
            ).events,
    {
        let ghost before = self.deep_view();
        let ghost prior = events.deep_view();
        if self.pending_tool_calls.is_empty() {
            assert(before.calls.is_empty()) by {
                assert(before.calls.dom() =~= self.pending_tool_calls@.dom());
            }
            assert(events.deep_view() =~= prior + Seq::empty());
            return;
        }
        assert(!before.calls.is_empty()) by {
            assert(before.calls.dom() =~= self.pending_tool_calls@.dom());
        }
        let calls: Vec<PendingToolCall> = pending::list_in_order(&self.pending_tool_calls);
        let (messages, notes): (Vec<Message>, Vec<String>) = self.settle_all(
            &calls,
            &stamps.calls,
        );
        self.pending_tool_calls.clear();
        let ghost cleared = StateView { calls: Map::empty(), ..before };
        assert(self.deep_view().calls =~= Map::empty());
        assert(self.deep_view() =~= cleared);
        let ghost added = with_messages(cleared, messages.deep_view());
        if messages.len() > 0 {
            let event: ResponseEvent = events::build_add_messages_event(
                self.task_id.as_str(),
                messages,
            );
            events.push(event);
            assert(events.deep_view() =~= prior + seq![event.deep_view()]);
        } else {
            assert(events.deep_view() =~= prior + Seq::empty());
        }
        let ghost noted = with_notes(cleared, notes.deep_view(), stamps.placeholder_time);
        if notes.len() > 0 {
            self.maybe_push_placeholder(stamps.placeholder_time, events);
            self.push_append(text::join(&notes, "\n").as_str(), events);
        }
        assert(events.deep_view() =~= prior + (added.events + noted.events));
    }
}

// ---- Chunks ----------------------------------------------------------------

/// The calls once a chunk's pieces have been added.
pub open spec fn heard(s: StateView, chunk: ChunkView) -> StateView {
    match chunk.choices[0].delta.tool_calls {
        Some(deltas) => StateView { calls: pending::absorbed(s.calls, deltas), ..s },
        None => s,
    }
}

/// Says `content`, if there is any.
pub open spec fn spoken(s: StateView, content: Seq<char>, time: Timestamp) -> Step {
    if content.len() > 0 {
        and_next(
            opened(s),
            |s: StateView|
                and_next(with_placeholder(s, time), |s: StateView| appended(s, content)),
        )
    } else {
        stay(s)
    }
}

/// The event for a finish reason.
pub open spec fn end_for(reason: Seq<char>) -> ResponseEventView {
    if reason == "length"@ {
        events::finished_event(FinishReasonView::MaxTokenLimit)
    } else {
        done_reply()
    }
}

/// What a finish reason brings before the end: the calls in flight or, in a
/// turn of plain text, a message even where nothing was said.
pub open spec fn rounded_off(s: StateView, reason: Seq<char>, stamps: StampsView) -> Step {
    if reason == "tool_calls"@ || !s.calls.is_empty() {
        calls_made(s, stamps)
    } else {
        with_placeholder(s, stamps.placeholder_time)
    }
}

/// Ends the reply for a reason, if there is one.
pub open spec fn closed(s: StateView, finish: Option<Seq<char>>, stamps: StampsView) -> Step {
    match finish {
        Some(reason) => and_next(
            opened(s),
            |s: StateView|
                and_next(
                    rounded_off(s, reason, stamps),
                    |s: StateView| ended_by(s, end_for(reason)),
                ),
        ),
        None => stay(s),
    }
}

/// What the first alternative in a chunk says.
pub open spec fn content_of(chunk: ChunkView) -> Seq<char> {
    tools::or_empty(chunk.choices[0].delta.content)
}

/// What a chunk brings. Only its first alternative counts.
pub open spec fn after_chunk(s: StateView, chunk: ChunkView, stamps: StampsView) -> Step {
    if chunk.choices.len() == 0 {
        stay(s)
    } else {
        and_next(
            spoken(heard(s, chunk), content_of(chunk), stamps.placeholder_time),
            |s: StateView| closed(s, chunk.choices[0].finish_reason, stamps),
        )
    }
}

/// There are stamps for what a chunk may bring.
pub open spec fn stamps_fit(s: StateView, chunk: ChunkView, stamps: StampsView) -> bool {
    chunk.choices.len() > 0 && chunk.choices[0].finish_reason is Some ==> enough_stamps(
        heard(s, chunk),
        stamps,
    )
}

/// Fresh ids and the time of day, for `count` calls.
fn mint_stamps(count: usize) -> (r: Stamps)
    ensures
        freshly_minted(r.deep_view()),
        r.calls@.len() == count,
{
    let placeholder_time: Timestamp = mint::now_timestamp();
    let mut calls: Vec<CallStamp> = Vec::new();
    let mut i: usize = 0;
    while i < count
        invariant
            i <= count,
            calls@.len() == i,
            forall|j: int|
                0 <= j < i ==> {
                    let stamp = #[trigger] calls.deep_view()[j];
                    &&& mint::is_minted_id(stamp.call_id)
                    &&& mint::is_minted_id(stamp.message_id)
                    &&& mint::is_moment(stamp.time)
                },
        decreases count - i,
    {
        let ghost prior = calls.deep_view();
        let stamp = CallStamp {
            call_id: mint::mint_id(),
            message_id: mint::mint_id(),
            time: mint::now_timestamp(),
        };
        calls.push(stamp);
        assert(calls.deep_view() =~= prior.push(stamp.deep_view()));
        i = i + 1;
    }
    Stamps { placeholder_time, calls }
}

impl StreamingState {
    fn speak(&mut self, content: &str, time: Timestamp, events: &mut Vec<ResponseEvent>)
        ensures
            final(self).deep_view() == spoken(old(self).deep_view(), content@, time).state,
            final(events).deep_view() == old(events).deep_view() + spoken(
                old(self).deep_view(),
                content@,
                time,
            ).events,
    {
        let ghost s = self.deep_view();
        let ghost prior = events.deep_view();
        if !content.is_empty() {
            self.maybe_push_init(events);
            self.maybe_push_placeholder(time, events);
            self.push_append(content, events);
        }
        assert(events.deep_view() =~= prior + spoken(s, content@, time).events);
    }

    fn close(&mut self, finish: &Option<String>, stamps: &Stamps, events: &mut Vec<ResponseEvent>)
        requires
            finish is Some ==> enough_stamps(old(self).deep_view(), stamps.deep_view()),
        ensures
            final(self).deep_view() == closed(
                old(self).deep_view(),
                finish.deep_view(),
                stamps.deep_view(),
            ).state,
            final(events).deep_view() == old(events).deep_view() + closed(
                old(self).deep_view(),
                finish.deep_view(),
                stamps.deep_view(),
            ).events,
    {
        let ghost s = self.deep_view();
        let ghost prior = events.deep_view();
        if let Some(reason) = finish {
            self.maybe_push_init(events);
            let ghost s1 = self.deep_view();
            assert(s1.calls.dom() =~= self.pending_tool_calls@.dom());
            if same(reason.as_str(), "tool_calls") || !self.pending_tool_calls.is_empty() {
                self.emit_pending_tool_calls(stamps, events);
            } else {
                self.maybe_push_placeholder(stamps.placeholder_time, events);
            }
            let event: ResponseEvent = if same(reason.as_str(), "length") {
                events::build_finished_event(FinishReason::MaxTokenLimit)
            } else {
                self.done_event()
            };
            self.push_end(event, events);
        }
        assert(events.deep_view() =~= prior + closed(
            s,
            finish.deep_view(),
            stamps.deep_view(),
        ).events);
    }

    fn hear(&mut self, choice: &OpenAiStreamChoice)
        ensures
            final(self).deep_view() == (match choice.deep_view().delta.tool_calls {
                Some(deltas) => StateView {
                    calls: pending::absorbed(old(self).deep_view().calls, deltas),
                    ..old(self).deep_view()
                },
                None => old(self).deep_view(),
            }),
    {
        if let Some(deltas) = &choice.delta.tool_calls {
            self.absorb_tool_call_deltas(deltas);
        }
    }

    fn respond(
        &mut self,
        choice: &OpenAiStreamChoice,
        stamps: &Stamps,
        events: &mut Vec<ResponseEvent>,
    )
        requires
            choice.finish_reason is Some ==> enough_stamps(
                old(self).deep_view(),
                stamps.deep_view(),
            ),
        ensures
            ({
                let step = and_next(
                    spoken(
                        old(self).deep_view(),
                        tools::or_empty(choice.deep_view().delta.content),
                        stamps.deep_view().placeholder_time,
                    ),
                    |s: StateView|
                        closed(s, choice.deep_view().finish_reason, stamps.deep_view()),
                );
                &&& final(self).deep_view() == step.state
                &&& final(events).deep_view() == old(events).deep_view() + step.events
            }),
    {
        let ghost s = self.deep_view();
        let ghost prior = events.deep_view();
        let ghost content = tools::or_empty(choice.deep_view().delta.content);
        let ghost said = spoken(s, content, stamps.placeholder_time);
        match &choice.delta.content {
            Some(content) => {
                self.speak(content.as_str(), stamps.placeholder_time, events);
            },
            None => {
                assert(events.deep_view() =~= prior + said.events);
            },
        }
        assert(self.deep_view().calls == s.calls);
        self.close(&choice.finish_reason, stamps, events);
        assert(events.deep_view() =~= prior + (said.events + closed(
            said.state,
            choice.deep_view().finish_reason,
            stamps.deep_view(),
        ).events));
    }

    /// Takes in one chunk with the given ids and times.
    pub fn process_chunk_with(
        &mut self,
        chunk: &OpenAiStreamChunk,
        stamps: &Stamps,
        events: &mut Vec<ResponseEvent>,
    )
        requires
            stamps_fit(old(self).deep_view(), chunk.deep_view(), stamps.deep_view()),
        ensures
            final(self).deep_view() == after_chunk(
                old(self).deep_view(),
                chunk.deep_view(),
                stamps.deep_view(),
            ).state,
            final(events).deep_view() == old(events).deep_view() + after_chunk(
                old(self).deep_view(),
                chunk.deep_view(),
                stamps.deep_view(),
            ).events,
            (old(self).deep_view().pending_init matches Some(init) ==> events::is_init(init))
                && chunk.choices@.len() > 0 && chunk.choices@[0].finish_reason is None
                ==> stream_laws::text_of(final(events).deep_view()) == stream_laws::text_of(
                old(events).deep_view(),
            ) + (match chunk.choices@[0].delta.content {
                Some(c) => c@,
                None => Seq::empty(),
            }),
    {
        let ghost s = self.deep_view();
        let ghost prior = events.deep_view();
        if chunk.choices.len() == 0 {
            assert(events.deep_view() =~= prior + Seq::empty());
            return;
        }
        assert(chunk.choices[0].deep_view() == chunk.deep_view().choices[0]);
        self.hear(&chunk.choices[0]);
        self.respond(&chunk.choices[0], stamps, events);
        proof {
            let c = chunk.deep_view();
            if (s.pending_init matches Some(init) ==> events::is_init(init))
                && c.choices[0].finish_reason is None {
                stream_laws::lemma_new_text(s, c, stamps.deep_view(), prior, events.deep_view());
            }
        }
    }

    /// Takes in one chunk. What the model says goes out at once, its tool
    /// calls once it has finished. Ids and times are taken as they come.
    pub fn process_chunk(&mut self, chunk: OpenAiStreamChunk, events: &mut Vec<ResponseEvent>)
        ensures
            exists|stamps: StampsView| #[trigger]
                chunk_taken(
                    old(self).deep_view(),
                    chunk.deep_view(),
                    stamps,
                    final(self).deep_view(),
                    old(events).deep_view(),
                    final(events).deep_view(),
                ),
            (old(self).deep_view().pending_init matches Some(init) ==> events::is_init(init))
                && chunk.choices@.len() > 0 && chunk.choices@[0].finish_reason is None
                ==> stream_laws::text_of(final(events).deep_view()) == stream_laws::text_of(
                old(events).deep_view(),
            ) + (match chunk.choices@[0].delta.content {
                Some(c) => c@,
                None => Seq::empty(),
            }),
    {
        let ghost s = self.deep_view();
        let ghost prior = events.deep_view();
        if chunk.choices.len() == 0 {
            let stamps: Stamps = mint_stamps(0);
            assert(events.deep_view() =~= prior + Seq::empty());
            assert(chunk_taken(
                s,
                chunk.deep_view(),
                stamps.deep_view(),
                self.deep_view(),
                prior,
                events.deep_view(),
            ));
            return;
        }
        assert(chunk.choices[0].deep_view() == chunk.deep_view().choices[0]);
        self.hear(&chunk.choices[0]);
        let count: usize = if chunk.choices[0].finish_reason.is_some() {
            self.pending_tool_calls.len()
        } else {
            0
        };
        let stamps: Stamps = mint_stamps(count);
        proof {
            let calls = self.deep_view().calls;
            assert(calls.dom() =~= self.pending_tool_calls@.dom());
            pending::lemma_order_len(calls);
        }
        self.respond(&chunk.choices[0], &stamps, events);
        proof {
            let c = chunk.deep_view();
            if (s.pending_init matches Some(init) ==> events::is_init(init))
                && c.choices[0].finish_reason is None {
                stream_laws::lemma_new_text(s, c, stamps.deep_view(), prior, events.deep_view());
            }
        }
        assert(chunk_taken(
            s,
            chunk.deep_view(),
            stamps.deep_view(),
            self.deep_view(),
            prior,
            events.deep_view(),
        ));
    }
}

/// A chunk, taken in with fresh stamps, leads from `s` to `after` and adds its
/// events.
pub open spec fn chunk_taken(
    s: StateView,
    chunk: ChunkView,
    stamps: StampsView,
    after: StateView,
    old_events: Seq<ResponseEventView>,
    new_events: Seq<ResponseEventView>,
) -> bool {
    &&& freshly_minted(stamps)
    &&& stamps_fit(s, chunk, stamps)
    &&& after == after_chunk(s, chunk, stamps).state
    &&& new_events == old_events + after_chunk(s, chunk, stamps).events
}

// ---- Frames ----------------------------------------------------------------

/// What comes next from the endpoint.
#[derive(Debug, Clone, PartialEq, Eq)]
pub enum StreamFrame {
    /// The stream is at its end.
    Eof,
    /// The connection stands.
    Open,
    /// A message with its data.
    Message(String),
    /// The stream broke, for the given cause.
    Error(String),
}

/// What [`StreamFrame`] holds.
#[verifier::ext_equal]
pub enum FrameView {
    Eof,
    Open,
    Message(Seq<char>),
    Error(Seq<char>),
}

impl DeepView for StreamFrame {
    type V = FrameView;

    open spec fn deep_view(&self) -> FrameView {
        match self {
            StreamFrame::Eof => FrameView::Eof,
            StreamFrame::Open => FrameView::Open,
            StreamFrame::Message(data) => FrameView::Message(data@),
            StreamFrame::Error(cause) => FrameView::Error(cause@),
        }
    }
}

/// What a message's data comes to.
#[derive(Debug, Clone, PartialEq, Eq)]
pub enum FrameData {
    /// The endpoint says that it is done.
    Done,
    Chunk(OpenAiStreamChunk),
    /// Neither.
    Malformed,
}

/// What [`FrameData`] holds.
#[verifier::ext_equal]
pub enum FrameDataView {
    Done,
    Chunk(ChunkView),
    Malformed,
}

impl DeepView for FrameData {
    type V = FrameDataView;

    open spec fn deep_view(&self) -> FrameDataView {
        match self {
            FrameData::Done => FrameDataView::Done,
            FrameData::Chunk(chunk) => FrameDataView::Chunk(chunk.deep_view()),
            FrameData::Malformed => FrameDataView::Malformed,
        }
    }
}

/// What a message's data comes to. White space around it does not count.
pub open spec fn data_in(data: Seq<char>) -> FrameDataView {
    let data = text::trimmed(data);
    if data == "[DONE]"@ {
        FrameDataView::Done
    } else {
        match replies::chunk_in(data) {
            Some(chunk) => FrameDataView::Chunk(chunk),
            None => FrameDataView::Malformed,
        }
    }
}

pub fn read_data(data: &str) -> (r: FrameData)
    ensures
        r.deep_view() == data_in(data@),
{
    let data: &str = data.trim();
    if same(data, "[DONE]") {
        FrameData::Done
    } else {
        match OpenAiStreamChunk::from_json(data) {
            Some(chunk) => FrameData::Chunk(chunk),
            None => FrameData::Malformed,
        }
    }
}

/// Ends the reply with `event`, and opens it first where that has not
/// happened.
pub open spec fn concluded(s: StateView, event: ResponseEventView) -> Step {
    and_next(opened(s), |s: StateView| ended_by(s, event))
}

/// The end of a reply whose stream broke.
pub open spec fn broken_reply(cause: Seq<char>) -> ResponseEventView {
    events::failed_event("local endpoint stream error: "@ + cause)
}

/// What a frame brings. Malformed data is passed over: one bad frame does not
/// end the reply.
pub open spec fn after_frame(s: StateView, frame: FrameView, stamps: StampsView) -> Step {
    match frame {
        FrameView::Eof => concluded(s, done_reply()),
        FrameView::Open => stay(s),
        FrameView::Message(data) => match data_in(data) {
            FrameDataView::Done => concluded(s, done_reply()),
            FrameDataView::Chunk(chunk) => after_chunk(s, chunk, stamps),
            FrameDataView::Malformed => stay(s),
        },
        FrameView::Error(cause) => concluded(s, broken_reply(cause)),
    }
}

/// There are stamps for what a frame may bring.
pub open spec fn stamps_fit_frame(s: StateView, frame: FrameView, stamps: StampsView) -> bool {
    match frame {
        FrameView::Message(data) => match data_in(data) {
            FrameDataView::Chunk(chunk) => stamps_fit(s, chunk, stamps),
            _ => true,
        },
        _ => true,
    }
}

/// A frame, taken in with fresh stamps, leads from `s` to `after` and brings
/// the events.
pub open spec fn frame_taken(
    s: StateView,
    frame: FrameView,
    stamps: StampsView,
    after: StateView,
    events: Seq<ResponseEventView>,
) -> bool {
    &&& freshly_minted(stamps)
    &&& stamps_fit_frame(s, frame, stamps)
    &&& after == after_frame(s, frame, stamps).state
    &&& events == after_frame(s, frame, stamps).events
}

impl StreamingState {
    fn conclude(&mut self, event: ResponseEvent) -> (events: Vec<ResponseEvent>)
        ensures
            final(self).deep_view() == concluded(old(self).deep_view(), event.deep_view()).state,
            events.deep_view() == concluded(old(self).deep_view(), event.deep_view()).events,
    {
        let ghost s = self.deep_view();
        let mut events: Vec<ResponseEvent> = Vec::new();
        assert(events.deep_view() =~= Seq::empty());
        self.maybe_push_init(&mut events);
        self.push_end(event, &mut events);
        assert(events.deep_view() =~= concluded(s, event.deep_view()).events);
        events
    }

    fn break_off(&mut self, cause: &str) -> (events: Vec<ResponseEvent>)
        ensures
            final(self).deep_view() == concluded(old(self).deep_view(), broken_reply(cause@)).state,
            events.deep_view() == concluded(old(self).deep_view(), broken_reply(cause@)).events,
    {
        let mut message = "local endpoint stream error: ".to_string();
        message.append(cause);
        self.conclude(events::build_failed_event(message))
    }

    /// Takes in one frame with the given ids and times, and returns the events
    /// that it brings.
    pub fn next_events_with(&mut self, frame: &StreamFrame, stamps: &Stamps) -> (events: Vec<
        ResponseEvent,
    >)
        requires
            stamps_fit_frame(old(self).deep_view(), frame.deep_view(), stamps.deep_view()),
        ensures
            final(self).deep_view() == after_frame(
                old(self).deep_view(),
                frame.deep_view(),
                stamps.deep_view(),
            ).state,
            events.deep_view() == after_frame(
                old(self).deep_view(),
                frame.deep_view(),
                stamps.deep_view(),
            ).events,
    {
        let ghost s = self.deep_view();
        let mut events: Vec<ResponseEvent> = Vec::new();
        assert(events.deep_view() =~= Seq::empty());
        match frame {
            StreamFrame::Eof => {
                return self.conclude(events::build_finished_event(FinishReason::Done));
            },
            StreamFrame::Open => {},
            StreamFrame::Message(data) => match read_data(data.as_str()) {
                FrameData::Done => {
                    return self.conclude(events::build_finished_event(FinishReason::Done));
                },
                FrameData::Chunk(chunk) => {
                    self.process_chunk_with(&chunk, stamps, &mut events);
                    assert(Seq::empty() + after_chunk(
                        s,
                        chunk.deep_view(),
                        stamps.deep_view(),
                    ).events =~= after_chunk(s, chunk.deep_view(), stamps.deep_view()).events);
                },
                FrameData::Malformed => {},
            },
            StreamFrame::Error(cause) => {
                return self.break_off(cause.as_str());
            },
        }
        events
    }

    /// Takes in one frame and returns the events that it brings: none for a
    /// connection that stands, or for data that makes no sense.
    pub fn next_events(&mut self, frame: StreamFrame) -> (events: Vec<ResponseEvent>)
        ensures
            exists|stamps: StampsView| #[trigger]
                frame_taken(
                    old(self).deep_view(),
                    frame.deep_view(),
                    stamps,
                    final(self).deep_view(),
                    events.deep_view(),
                ),
    {
        let ghost s = self.deep_view();
        let stamps: Stamps = mint_stamps(0);
        if let StreamFrame::Message(data) = &frame {
            if let FrameData::Chunk(chunk) = read_data(data.as_str()) {
                let ghost c = chunk.deep_view();
                let mut events: Vec<ResponseEvent> = Vec::new();
                assert(events.deep_view() =~= Seq::empty());
                self.process_chunk(chunk, &mut events);
                proof {
                    let used = choose|stamps: StampsView| #[trigger]
                        chunk_taken(
                            s,
                            c,
                            stamps,
                            self.deep_view(),
                            Seq::empty(),
                            events.deep_view(),
                        );
                    assert(events.deep_view() =~= after_chunk(s, c, used).events);
                    assert(frame_taken(
                        s,
                        frame.deep_view(),
                        used,
                        self.deep_view(),
                        events.deep_view(),
                    ));
                }
                return events;
            }
        }
        let events: Vec<ResponseEvent> = self.next_events_with(&frame, &stamps);
        assert(frame_taken(
            s,
            frame.deep_view(),
            stamps.deep_view(),
            self.deep_view(),
            events.deep_view(),
        ));
        events
    }
}

// ---- Laws ------------------------------------------------------------------

/// The views of streams leave nothing out and change nothing: each part is that
/// of the value itself.
pub proof fn law_views_of_streams(
    streaming_state: StreamingState,
    call_stamp: CallStamp,
    stamps: Stamps,
    stream_frame: StreamFrame,
    frame_data: FrameData,
)
    ensures
        streaming_state.deep_view().task_id == streaming_state.task_id@,
        streaming_state.deep_view().request_id == streaming_state.request_id@,
        streaming_state.deep_view().message_id == streaming_state.message_id@,
        streaming_state.deep_view().emitted_init == streaming_state.emitted_init,
        streaming_state.deep_view().emitted_placeholder == streaming_state.emitted_placeholder,
        streaming_state.deep_view().finished == streaming_state.finished,
        streaming_state.deep_view().pending_init == streaming_state.pending_init.deep_view(),
        streaming_state.deep_view().calls == pending::calls_of(streaming_state.pending_tool_calls@),
        call_stamp.deep_view().call_id == call_stamp.call_id@,
        call_stamp.deep_view().message_id == call_stamp.message_id@,
        call_stamp.deep_view().time == call_stamp.time,
        stamps.deep_view().placeholder_time == stamps.placeholder_time,
        stamps.deep_view().calls == stamps.calls.deep_view(),
        stream_frame is Eof ==> stream_frame.deep_view() == FrameView::Eof,
        stream_frame is Open ==> stream_frame.deep_view() == FrameView::Open,
        stream_frame matches StreamFrame::Message(data)
            ==> stream_frame.deep_view() == FrameView::Message(data@),
        stream_frame matches StreamFrame::Error(cause)
            ==> stream_frame.deep_view() == FrameView::Error(cause@),
        frame_data is Done ==> frame_data.deep_view() == FrameDataView::Done,
        frame_data matches FrameData::Chunk(chunk)
            ==> frame_data.deep_view() == FrameDataView::Chunk(chunk.deep_view()),
        frame_data is Malformed ==> frame_data.deep_view() == FrameDataView::Malformed,
{
}

} // verus!
