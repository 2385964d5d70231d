//! Replies of the endpoint: the chunks of a streamed one, and a whole one.
//!
//! Reading is permissive: names that are not known are passed over, and all
//! that a chunk may leave out has a default, since runtimes differ in what
//! they send.

use vstd::prelude::*;

use crate::json;
use crate::json::Json;
use crate::layout;
use crate::layout::WrittenItem;
use crate::numbers;
use crate::record;
use crate::record::Record;
use crate::spacing;
use crate::text::same;
use crate::tool_laws;
use crate::values;

verus! {

// ---- Shapes ----------------------------------------------------------------

/// What a chunk says of the function that a call is of.
#[derive(Debug, Clone, PartialEq, Eq)]
pub struct OpenAiStreamFunctionDelta {
    pub name: Option<String>,
    /// A further piece of the JSON arguments.
    pub arguments: Option<String>,
}

/// What [`OpenAiStreamFunctionDelta`] holds.
#[verifier::ext_equal]
pub struct FunctionDeltaView {
    pub name: Option<Seq<char>>,
    pub arguments: Option<Seq<char>>,
}

impl DeepView for OpenAiStreamFunctionDelta {
    type V = FunctionDeltaView;

    open spec fn deep_view(&self) -> FunctionDeltaView {
        FunctionDeltaView {
            name: self.name.deep_view(),
            arguments: self.arguments.deep_view(),
        }
    }
}

/// What a chunk says of one call. The `id` and the function's name come with the
/// first chunk for an index, the arguments stream in pieces.
#[derive(Debug, Clone, PartialEq, Eq)]
pub struct OpenAiStreamToolCallDelta {
    /// Which of the calls in the reply is meant.
    pub index: usize,
    pub id: Option<String>,
    pub function: Option<OpenAiStreamFunctionDelta>,
}

/// What [`OpenAiStreamToolCallDelta`] holds.
#[verifier::ext_equal]
pub struct ToolCallDeltaView {
    pub index: usize,
    pub id: Option<Seq<char>>,
    pub function: Option<FunctionDeltaView>,
}

impl DeepView for OpenAiStreamToolCallDelta {
    type V = ToolCallDeltaView;

    open spec fn deep_view(&self) -> ToolCallDeltaView {
        ToolCallDeltaView {
            index: self.index,
            id: self.id.deep_view(),
            function: self.function.deep_view(),
        }
    }
}

/// What a chunk adds to the reply.
#[derive(Debug, Clone, PartialEq, Eq)]
pub struct OpenAiStreamDelta {
    pub content: Option<String>,
    pub tool_calls: Option<Vec<OpenAiStreamToolCallDelta>>,
}

/// What [`OpenAiStreamDelta`] holds.
#[verifier::ext_equal]
pub struct DeltaView {
    pub content: Option<Seq<char>>,
    pub tool_calls: Option<Seq<ToolCallDeltaView>>,
}

impl DeepView for OpenAiStreamDelta {
    type V = DeltaView;

    open spec fn deep_view(&self) -> DeltaView {
        DeltaView {
            content: self.content.deep_view(),
            tool_calls: self.tool_calls.deep_view(),
        }
    }
}

/// One of the alternative replies.
#[derive(Debug, Clone, PartialEq, Eq)]
pub struct OpenAiStreamChoice {
    pub delta: OpenAiStreamDelta,
    pub finish_reason: Option<String>,
}

/// What [`OpenAiStreamChoice`] holds.
#[verifier::ext_equal]
pub struct ChoiceView {
    pub delta: DeltaView,
    pub finish_reason: Option<Seq<char>>,
}

impl DeepView for OpenAiStreamChoice {
    type V = ChoiceView;

    open spec fn deep_view(&self) -> ChoiceView {
        ChoiceView {
            delta: self.delta.deep_view(),
            finish_reason: self.finish_reason.deep_view(),
        }
    }
}

/// One chunk of a streamed reply.
#[derive(Debug, Clone, PartialEq, Eq)]
pub struct OpenAiStreamChunk {
    pub choices: Vec<OpenAiStreamChoice>,
}

/// What [`OpenAiStreamChunk`] holds.
#[verifier::ext_equal]
pub struct ChunkView {
    pub choices: Seq<ChoiceView>,
}

impl DeepView for OpenAiStreamChunk {
    type V = ChunkView;

    open spec fn deep_view(&self) -> ChunkView {
        ChunkView { choices: self.choices.deep_view() }
    }
}

/// The message of a whole reply.
#[derive(Debug, Clone, PartialEq, Eq)]
pub struct OpenAiResponseMessage {
    pub content: Option<String>,
}

/// What [`OpenAiResponseMessage`] holds.
#[verifier::ext_equal]
pub struct ReplyMessageView {
    pub content: Option<Seq<char>>,
}

impl DeepView for OpenAiResponseMessage {
    type V = ReplyMessageView;

    open spec fn deep_view(&self) -> ReplyMessageView {
        ReplyMessageView { content: self.content.deep_view() }
    }
}

/// One of the alternative replies, whole.
#[derive(Debug, Clone, PartialEq, Eq)]
pub struct OpenAiChoice {
    pub message: OpenAiResponseMessage,
}

/// What [`OpenAiChoice`] holds.
#[verifier::ext_equal]
pub struct ReplyChoiceView {
    pub message: ReplyMessageView,
}

impl DeepView for OpenAiChoice {
    type V = ReplyChoiceView;

    open spec fn deep_view(&self) -> ReplyChoiceView {
        ReplyChoiceView { message: self.message.deep_view() }
    }
}

/// A whole reply.
#[derive(Debug, Clone, PartialEq, Eq)]
pub struct OpenAiChatResponse {
    pub choices: Vec<OpenAiChoice>,
}

/// What [`OpenAiChatResponse`] holds.
#[verifier::ext_equal]
pub struct ReplyView {
    pub choices: Seq<ReplyChoiceView>,
}

impl DeepView for OpenAiChatResponse {
    type V = ReplyView;

    open spec fn deep_view(&self) -> ReplyView {
        ReplyView { choices: self.choices.deep_view() }
    }
}

// ---- Reading a chunk -------------------------------------------------------

/// What a text says of a call's function.
pub open spec fn function_delta_in(t: Seq<char>) -> Option<FunctionDeltaView> {
    match record::record(t, seq!["name"@, "arguments"@]) {
        Some(r) => match (record::optional_text(r.values[0]), record::optional_text(r.values[1])) {
            (Some(name), Some(arguments)) => Some(FunctionDeltaView { name, arguments }),
            _ => None,
        },
        None => None,
    }
}

/// The function in a field that may be missing or `null`.
pub open spec fn optional_function_delta(field: Option<Seq<char>>) -> Option<
    Option<FunctionDeltaView>,
> {
    match field {
        None => Some(None),
        Some(t) => if t == "null"@ {
            Some(None)
        } else {
            match function_delta_in(t) {
                Some(f) => Some(Some(f)),
                None => None,
            }
        },
    }
}

/// `n` as an index, where it is none too large.
pub open spec fn as_index(n: Option<u64>) -> Option<usize> {
    match n {
        Some(n) => if n <= usize::MAX {
            Some(n as usize)
        } else {
            None
        },
        None => None,
    }
}

/// The index in a field; the first where the field is missing.
pub open spec fn index_or_first(field: Option<Seq<char>>) -> Option<usize> {
    match field {
        None => Some(0),
        Some(t) => as_index(json::number_value(t)),
    }
}

/// What a text says of a call.
pub open spec fn tool_call_delta_in(t: Seq<char>) -> Option<ToolCallDeltaView> {
    match record::record(t, seq!["index"@, "id"@, "function"@]) {
        Some(r) => match (
            index_or_first(r.values[0]),
            record::optional_text(r.values[1]),
            optional_function_delta(r.values[2]),
        ) {
            (Some(index), Some(id), Some(function)) => Some(
                ToolCallDeltaView { index, id, function },
            ),
            _ => None,
        },
        None => None,
    }
}

/// What a text adds to the reply.
pub open spec fn delta_in(t: Seq<char>) -> Option<DeltaView> {
    match record::record(t, seq!["content"@, "tool_calls"@]) {
        Some(r) => match (
            record::optional_text(r.values[0]),
            record::optional_entries(r.values[1], |t: Seq<char>| tool_call_delta_in(t)),
        ) {
            (Some(content), Some(tool_calls)) => Some(DeltaView { content, tool_calls }),
            _ => None,
        },
        None => None,
    }
}

/// The addition in a field; none where the field is missing.
pub open spec fn delta_or_none(field: Option<Seq<char>>) -> Option<DeltaView> {
    match field {
        None => Some(DeltaView { content: None, tool_calls: None }),
        Some(t) => delta_in(t),
    }
}

/// The alternative in a text.
pub open spec fn choice_in(t: Seq<char>) -> Option<ChoiceView> {
    match record::record(t, seq!["delta"@, "finish_reason"@]) {
        Some(r) => match (delta_or_none(r.values[0]), record::optional_text(r.values[1])) {
            (Some(delta), Some(finish_reason)) => Some(ChoiceView { delta, finish_reason }),
            _ => None,
        },
        None => None,
    }
}

/// The chunk in a text.
pub open spec fn chunk_in(text: Seq<char>) -> Option<ChunkView> {
    match record::record(text, seq!["choices"@]) {
        Some(r) => match r.values[0] {
            None => Some(ChunkView { choices: Seq::empty() }),
            Some(t) => match record::entries(t, |t: Seq<char>| choice_in(t)) {
                Some(choices) => Some(ChunkView { choices }),
                None => None,
            },
        },
        None => None,
    }
}

fn read_function_delta(t: &str) -> (r: Option<OpenAiStreamFunctionDelta>)
    ensures
        r.deep_view() == function_delta_in(t@),
{
    let names: Vec<&str> = vec!["name", "arguments"];
    assert(names.deep_view() =~= seq!["name"@, "arguments"@]);
    let r: Record = match record::read_record(t, &names) {
        Some(r) => r,
        None => {
            return None;
        },
    };
    match (record::read_optional_text(&r.values[0]), record::read_optional_text(&r.values[1])) {
        (Some(name), Some(arguments)) => Some(OpenAiStreamFunctionDelta { name, arguments }),
        _ => None,
    }
}

fn read_optional_function_delta(field: &Option<String>) -> (r: Option<
    Option<OpenAiStreamFunctionDelta>,
>)
    ensures
        r.deep_view() == optional_function_delta(field.deep_view()),
{
    match field {
        None => Some(None),
        Some(t) => if same(t.as_str(), "null") {
            Some(None)
        } else {
            match read_function_delta(t.as_str()) {
                Some(f) => Some(Some(f)),
                None => None,
            }
        },
    }
}

fn read_index_or_first(field: &Option<String>) -> (r: Option<usize>)
    ensures
        r == index_or_first(field.deep_view()),
{
    match field {
        None => Some(0),
        Some(t) => match json::read_number(t.as_str()) {
            Some(n) => if n <= usize::MAX as u64 {
                Some(n as usize)
            } else {
                None
            },
            None => None,
        },
    }
}

fn read_tool_call_delta(t: &str) -> (r: Option<OpenAiStreamToolCallDelta>)
    ensures
        r.deep_view() == tool_call_delta_in(t@),
{
    let names: Vec<&str> = vec!["index", "id", "function"];
    assert(names.deep_view() =~= seq!["index"@, "id"@, "function"@]);
    let r: Record = match record::read_record(t, &names) {
        Some(r) => r,
        None => {
            return None;
        },
    };
    match (
        read_index_or_first(&r.values[0]),
        record::read_optional_text(&r.values[1]),
        read_optional_function_delta(&r.values[2]),
    ) {
        (Some(index), Some(id), Some(function)) => Some(
            OpenAiStreamToolCallDelta { index, id, function },
        ),
        _ => None,
    }
}

fn read_delta(t: &str) -> (r: Option<OpenAiStreamDelta>)
    ensures
        r.deep_view() == delta_in(t@),
{
    let names: Vec<&str> = vec!["content", "tool_calls"];
    assert(names.deep_view() =~= seq!["content"@, "tool_calls"@]);
    let r: Record = match record::read_record(t, &names) {
        Some(r) => r,
        None => {
            return None;
        },
    };
    match (
        record::read_optional_text(&r.values[0]),
        record::read_optional_entries(
            &r.values[1],
            read_tool_call_delta,
            Ghost(|t: Seq<char>| tool_call_delta_in(t)),
        ),
    ) {
        (Some(content), Some(tool_calls)) => Some(OpenAiStreamDelta { content, tool_calls }),
        _ => None,
    }
}

fn read_delta_or_none(field: &Option<String>) -> (r: Option<OpenAiStreamDelta>)
    ensures
        r.deep_view() == delta_or_none(field.deep_view()),
{
    match field {
        None => Some(OpenAiStreamDelta { content: None, tool_calls: None }),
        Some(t) => read_delta(t.as_str()),
    }
}

fn read_choice(t: &str) -> (r: Option<OpenAiStreamChoice>)
    ensures
        r.deep_view() == choice_in(t@),
{
    let names: Vec<&str> = vec!["delta", "finish_reason"];
    assert(names.deep_view() =~= seq!["delta"@, "finish_reason"@]);
    let r: Record = match record::read_record(t, &names) {
        Some(r) => r,
        None => {
            return None;
        },
    };
    match (read_delta_or_none(&r.values[0]), record::read_optional_text(&r.values[1])) {
        (Some(delta), Some(finish_reason)) => Some(OpenAiStreamChoice { delta, finish_reason }),
        _ => None,
    }
}

impl OpenAiStreamChunk {
    /// Reads a chunk. Returns `None` where the text is no JSON or has another
    /// shape.
    pub fn from_json(text: &str) -> (r: Option<Self>)
        ensures
            r.deep_view() == chunk_in(text@),
    {
        let names: Vec<&str> = vec!["choices"];
        assert(names.deep_view() =~= seq!["choices"@]);
        let r: Record = match record::read_record(text, &names) {
            Some(r) => r,
            None => {
                return None;
            },
        };
        match &r.values[0] {
            None => {
                let choices: Vec<OpenAiStreamChoice> = Vec::new();
                assert(choices.deep_view() =~= Seq::empty());
                Some(OpenAiStreamChunk { choices })
            },
            Some(t) => match record::read_entries(
                t.as_str(),
                read_choice,
                Ghost(|t: Seq<char>| choice_in(t)),
            ) {
                Some(choices) => Some(OpenAiStreamChunk { choices }),
                None => None,
            },
        }
    }
}

// ---- Reading a whole reply -------------------------------------------------

/// The message in a text. An object may leave the content out, an array may
/// not.
pub open spec fn reply_message_in(t: Seq<char>) -> Option<ReplyMessageView> {
    match record::record(t, seq!["content"@]) {
        Some(r) => if !r.by_name && r.values[0] is None {
            None
        } else {
            match record::optional_text(r.values[0]) {
                Some(content) => Some(ReplyMessageView { content }),
                None => None,
            }
        },
        None => None,
    }
}

/// The alternative in a text.
pub open spec fn reply_choice_in(t: Seq<char>) -> Option<ReplyChoiceView> {
    match record::record(t, seq!["message"@]) {
        Some(r) => match r.values[0] {
            Some(t) => match reply_message_in(t) {
                Some(message) => Some(ReplyChoiceView { message }),
                None => None,
            },
            None => None,
        },
        None => None,
    }
}

/// The whole reply in a text.
pub open spec fn reply_in(text: Seq<char>) -> Option<ReplyView> {
    match record::record(text, seq!["choices"@]) {
        Some(r) => match r.values[0] {
            Some(t) => match record::entries(t, |t: Seq<char>| reply_choice_in(t)) {
                Some(choices) => Some(ReplyView { choices }),
                None => None,
            },
            None => None,
        },
        None => None,
    }
}

fn read_reply_message(t: &str) -> (r: Option<OpenAiResponseMessage>)
    ensures
        r.deep_view() == reply_message_in(t@),
{
    let names: Vec<&str> = vec!["content"];
    assert(names.deep_view() =~= seq!["content"@]);
    let r: Record = match record::read_record(t, &names) {
        Some(r) => r,
        None => {
            return None;
        },
    };
    assert(r.values[0].deep_view() == r.values.deep_view()[0]);
    if !r.by_name && r.values[0].is_none() {
        return None;
    }
    match record::read_optional_text(&r.values[0]) {
        Some(content) => Some(OpenAiResponseMessage { content }),
        None => None,
    }
}

fn read_reply_choice(t: &str) -> (r: Option<OpenAiChoice>)
    ensures
        r.deep_view() == reply_choice_in(t@),
{
    let names: Vec<&str> = vec!["message"];
    assert(names.deep_view() =~= seq!["message"@]);
    let r: Record = match record::read_record(t, &names) {
        Some(r) => r,
        None => {
            return None;
        },
    };
    match &r.values[0] {
        Some(t) => match read_reply_message(t.as_str()) {
            Some(message) => Some(OpenAiChoice { message }),
            None => None,
        },
        None => None,
    }
}

impl OpenAiChatResponse {
    /// Reads a whole reply. Returns `None` where the text is no JSON or has
    /// another shape.
    pub fn from_json(text: &str) -> (r: Option<Self>)
        ensures
            r.deep_view() == reply_in(text@),
    {
        let names: Vec<&str> = vec!["choices"];
        assert(names.deep_view() =~= seq!["choices"@]);
        let r: Record = match record::read_record(text, &names) {
            Some(r) => r,
            None => {
                return None;
            },
        };
        match &r.values[0] {
            Some(t) => match record::read_entries(
                t.as_str(),
                read_reply_choice,
                Ghost(|t: Seq<char>| reply_choice_in(t)),
            ) {
                Some(choices) => Some(OpenAiChatResponse { choices }),
                None => None,
            },
            None => None,
        }
    }
}

// ---- Laws ------------------------------------------------------------------

/// An object with one field.
pub open spec fn one_field(name: Seq<char>, value: Json) -> Json {
    Json::Obj(seq![(name, value)])
}

proof fn lemma_one_field(name: Seq<char>, value: Json, names: Seq<Seq<char>>)
    ensures
        record::record(json::json_text(one_field(name, value)), names) == Some(
            record::RecordView {
                by_name: true,
                values: Seq::new(
                    names.len(),
                    |i: int|
                        if names[i] == name {
                            Some(json::json_text(value))
                        } else {
                            None
                        },
                ),
            },
        ),
{
    let fields = seq![(name, value)];
    record::lemma_read_record(fields, names);
    assert(fields.drop_last() =~= Seq::empty());
    assert forall|n: Seq<char>| #[trigger] record::value_under(fields, n) == (if n == name {
        Some(json::json_text(value))
    } else {
        None
    }) by {
        assert(record::value_under(fields.drop_last(), n) is None);
    }
    assert(Seq::new(names.len(), |i: int| record::value_under(fields, names[i])) =~= Seq::new(
        names.len(),
        |i: int|
            if names[i] == name {
                Some(json::json_text(value))
            } else {
                None
            },
    ));
}

/// The names that differ where one of them stands alone.
proof fn lemma_names_differ()
    ensures
        "content"@ != "tool_calls"@,
        "delta"@ != "finish_reason"@,
        forall|s: Seq<char>| json::json_text(Json::Str(s)) != "null"@,
{
    reveal_strlit("content");
    reveal_strlit("tool_calls");
    reveal_strlit("delta");
    reveal_strlit("finish_reason");
    reveal_strlit("null");
    assert("content"@.len() == 7 && "tool_calls"@.len() == 10);
    assert("delta"@.len() == 5 && "finish_reason"@.len() == 13);
    assert forall|s: Seq<char>| json::json_text(Json::Str(s)) != "null"@ by {
        assert(json::json_text(Json::Str(s))[0] == '"');
    }
}

/// What a chunk says is read as it was written.
pub proof fn law_said_text_is_read(content: Seq<char>)
    ensures
        chunk_in(
            json::json_text(
                one_field(
                    "choices"@,
                    Json::Arr(
                        seq![one_field("delta"@, one_field("content"@, Json::Str(content)))],
                    ),
                ),
            ),
        ) == Some(
            ChunkView {
                choices: seq![
                    ChoiceView {
                        delta: DeltaView { content: Some(content), tool_calls: None },
                        finish_reason: None,
                    },
                ],
            },
        ),
{
    let delta = one_field("content"@, Json::Str(content));
    let choice = one_field("delta"@, delta);
    let choices = seq![choice];
    let read = ChoiceView {
        delta: DeltaView { content: Some(content), tool_calls: None },
        finish_reason: None,
    };
    let entry = |t: Seq<char>| choice_in(t);
    lemma_names_differ();
    record::lemma_read_string(content);
    lemma_one_field("content"@, Json::Str(content), seq!["content"@, "tool_calls"@]);
    assert(delta_in(json::json_text(delta)) == Some(read.delta));
    lemma_one_field("delta"@, delta, seq!["delta"@, "finish_reason"@]);
    assert(entry(json::json_text(choice)) == Some(read));
    record::lemma_read_entries(choices, entry, seq![read]);
    lemma_one_field("choices"@, Json::Arr(choices), seq!["choices"@]);
}

/// The text of a whole reply is read as it was written.
pub proof fn law_reply_text_is_read(content: Seq<char>)
    ensures
        reply_in(
            json::json_text(
                one_field(
                    "choices"@,
                    Json::Arr(
                        seq![one_field("message"@, one_field("content"@, Json::Str(content)))],
                    ),
                ),
            ),
        ) == Some(
            ReplyView {
                choices: seq![
                    ReplyChoiceView { message: ReplyMessageView { content: Some(content) } },
                ],
            },
        ),
{
    let message = one_field("content"@, Json::Str(content));
    let choice = one_field("message"@, message);
    let choices = seq![choice];
    let read = ReplyChoiceView { message: ReplyMessageView { content: Some(content) } };
    let entry = |t: Seq<char>| reply_choice_in(t);
    lemma_names_differ();
    record::lemma_read_string(content);
    lemma_one_field("content"@, Json::Str(content), seq!["content"@]);
    assert(reply_message_in(json::json_text(message)) == Some(read.message));
    lemma_one_field("message"@, message, seq!["message"@]);
    assert(entry(json::json_text(choice)) == Some(read));
    record::lemma_read_entries(choices, entry, seq![read]);
    lemma_one_field("choices"@, Json::Arr(choices), seq!["choices"@]);
}

/// The piece of a call as it stands in a chunk.
pub open spec fn call_piece(
    index: usize,
    id: Seq<char>,
    name: Seq<char>,
    arguments: Seq<char>,
) -> Json {
    Json::Obj(
        seq![
            ("index"@, Json::Num(numbers::count_of(index as u64))),
            ("id"@, Json::Str(id)),
            (
                "function"@,
                Json::Obj(seq![("name"@, Json::Str(name)), ("arguments"@, Json::Str(arguments))]),
            ),
        ],
    )
}

/// A chunk with a piece of a call, as runtimes send it.
pub open spec fn call_chunk(piece: Json) -> Json {
    one_field(
        "choices"@,
        Json::Arr(
            seq![
                Json::Obj(
                    seq![
                        ("index"@, Json::Num(numbers::count_of(0))),
                        (
                            "delta"@,
                            Json::Obj(
                                seq![
                                    ("content"@, Json::Null),
                                    ("tool_calls"@, Json::Arr(seq![piece])),
                                ],
                            ),
                        ),
                        ("finish_reason"@, Json::Null),
                    ],
                ),
            ],
        ),
    )
}

proof fn lemma_piece_names_differ()
    ensures
        "index"@.len() == 5,
        "id"@.len() == 2,
        "function"@.len() == 8,
        "name"@.len() == 4,
        "arguments"@.len() == 9,
        "content"@.len() == 7,
        "tool_calls"@.len() == 10,
        "delta"@.len() == 5,
        "finish_reason"@.len() == 13,
        "delta"@ != "index"@,
        json::json_text(Json::Null) == "null"@,
{
    reveal_strlit("index");
    reveal_strlit("id");
    reveal_strlit("function");
    reveal_strlit("name");
    reveal_strlit("arguments");
    reveal_strlit("content");
    reveal_strlit("tool_calls");
    reveal_strlit("delta");
    reveal_strlit("finish_reason");
    assert("delta"@[0] == 'd' && "index"@[0] == 'i');
}

/// The text of an object or an array is not `null`.
proof fn lemma_not_null(j: Json)
    requires
        j is Obj || j is Arr || j is Str,
    ensures
        json::json_text(j) != "null"@,
{
    reveal_strlit("null");
    match j {
        Json::Str(s) => assert(json::json_text(j)[0] == '"'),
        Json::Arr(items) => assert(json::json_text(j)[0] == '['),
        Json::Obj(fields) => assert(json::json_text(j)[0] == '{'),
        _ => {},
    }
}

proof fn lemma_piece_is_read(
    index: usize,
    id: Seq<char>,
    name: Seq<char>,
    arguments: Seq<char>,
)
    ensures
        tool_call_delta_in(json::json_text(call_piece(index, id, name, arguments))) == Some(
            ToolCallDeltaView {
                index,
                id: Some(id),
                function: Some(
                    FunctionDeltaView { name: Some(name), arguments: Some(arguments) },
                ),
            },
        ),
{
    lemma_piece_names_differ();
    let inner = seq![("name"@, Json::Str(name)), ("arguments"@, Json::Str(arguments))];
    let function = Json::Obj(inner);
    lemma_not_null(Json::Str(name));
    lemma_not_null(Json::Str(arguments));
    lemma_not_null(Json::Str(id));
    lemma_not_null(function);
    record::lemma_read_string(name);
    record::lemma_read_string(arguments);
    record::lemma_read_string(id);
    record::lemma_read_number(numbers::count_of(index as u64));
    record::lemma_read_record(inner, seq!["name"@, "arguments"@]);
    assert(record::value_under(inner, "arguments"@) == Some(
        json::json_text(Json::Str(arguments)),
    ));
    assert(record::value_under(inner.drop_last(), "name"@) == Some(
        json::json_text(Json::Str(name)),
    ));
    assert(record::value_under(inner, "name"@) == Some(json::json_text(Json::Str(name))));
    assert(function_delta_in(json::json_text(function)) is Some);
    let fields = seq![
        ("index"@, Json::Num(numbers::count_of(index as u64))),
        ("id"@, Json::Str(id)),
        ("function"@, function),
    ];
    let two = fields.drop_last();
    let one = two.drop_last();
    record::lemma_read_record(fields, seq!["index"@, "id"@, "function"@]);
    assert(one.last() == ("index"@, Json::Num(numbers::count_of(index as u64))));
    assert(two.last() == ("id"@, Json::Str(id)));
    assert(record::value_under(one, "index"@) == Some(
        json::json_text(Json::Num(numbers::count_of(index as u64))),
    ));
    assert(record::value_under(two, "index"@) == Some(
        json::json_text(Json::Num(numbers::count_of(index as u64))),
    ));
    assert(record::value_under(two, "id"@) == Some(json::json_text(Json::Str(id))));
    assert(record::value_under(fields, "index"@) == record::value_under(two, "index"@));
    assert(record::value_under(fields, "id"@) == record::value_under(two, "id"@));
    assert(record::value_under(fields, "function"@) == Some(json::json_text(function)));
}

/// A piece of a tool call is read as it was written: its index, its id, and the
/// function's name and arguments.
pub proof fn law_call_piece_is_read(
    index: usize,
    id: Seq<char>,
    name: Seq<char>,
    arguments: Seq<char>,
)
    ensures
        chunk_in(json::json_text(call_chunk(call_piece(index, id, name, arguments)))) == Some(
            ChunkView {
                choices: seq![
                    ChoiceView {
                        delta: DeltaView {
                            content: None,
                            tool_calls: Some(
                                seq![
                                    ToolCallDeltaView {
                                        index,
                                        id: Some(id),
                                        function: Some(
                                            FunctionDeltaView {
                                                name: Some(name),
                                                arguments: Some(arguments),
                                            },
                                        ),
                                    },
                                ],
                            ),
                        },
                        finish_reason: None,
                    },
                ],
            },
        ),
{
    let piece = call_piece(index, id, name, arguments);
    let read_piece = tool_call_delta_in(json::json_text(piece))->0;
    lemma_piece_is_read(index, id, name, arguments);
    lemma_piece_names_differ();

    let list = Json::Arr(seq![piece]);
    let inner = seq![("content"@, Json::Null), ("tool_calls"@, list)];
    let delta = Json::Obj(inner);
    let piece_entry = |t: Seq<char>| tool_call_delta_in(t);
    lemma_not_null(list);
    record::lemma_read_entries(seq![piece], piece_entry, seq![read_piece]);
    record::lemma_read_record(inner, seq!["content"@, "tool_calls"@]);
    assert(record::value_under(inner.drop_last(), "content"@) == Some("null"@));
    assert(record::value_under(inner, "content"@) == Some("null"@));
    assert(record::value_under(inner, "tool_calls"@) == Some(json::json_text(list)));
    let read_delta = DeltaView { content: None, tool_calls: Some(seq![read_piece]) };
    assert(delta_in(json::json_text(delta)) == Some(read_delta));

    let fields = seq![
        ("index"@, Json::Num(numbers::count_of(0))),
        ("delta"@, delta),
        ("finish_reason"@, Json::Null),
    ];
    let choice = Json::Obj(fields);
    let two = fields.drop_last();
    record::lemma_read_record(fields, seq!["delta"@, "finish_reason"@]);
    assert(two.last() == ("delta"@, delta));
    assert(record::value_under(two, "delta"@) == Some(json::json_text(delta)));
    assert(record::value_under(fields, "delta"@) == Some(json::json_text(delta)));
    assert(record::value_under(fields, "finish_reason"@) == Some("null"@));
    let read = ChoiceView { delta: read_delta, finish_reason: None };
    let entry = |t: Seq<char>| choice_in(t);
    assert(entry(json::json_text(choice)) == Some(read));
    record::lemma_read_entries(seq![choice], entry, seq![read]);
    lemma_one_field("choices"@, Json::Arr(seq![choice]), seq!["choices"@]);
}

proof fn lemma_same_function(x: Seq<char>, y: Seq<char>)
    requires
        spacing::same_value(x, y),
    ensures
        function_delta_in(x) == function_delta_in(y),
{
    let names = seq!["name"@, "arguments"@];
    spacing::lemma_same_bare_record(x, y, names);
    if let (Some(a), Some(b)) = (record::record(x, names), record::record(y, names)) {
        record::lemma_record_len(x, names);
        spacing::lemma_same_optional_text(a.values[0], b.values[0]);
        spacing::lemma_same_optional_text(a.values[1], b.values[1]);
    }
}

proof fn lemma_same_piece(x: Seq<char>, y: Seq<char>)
    requires
        spacing::same_value(x, y),
    ensures
        tool_call_delta_in(x) == tool_call_delta_in(y),
{
    let names = seq!["index"@, "id"@, "function"@];
    spacing::lemma_same_bare_record(x, y, names);
    if let (Some(a), Some(b)) = (record::record(x, names), record::record(y, names)) {
        record::lemma_record_len(x, names);
        assert(spacing::same_field(a.values[0], b.values[0]));
        assert(spacing::same_field(a.values[2], b.values[2]));
        if a.values[0] is Some {
            spacing::lemma_same_number(a.values[0]->0, b.values[0]->0);
        }
        spacing::lemma_same_optional_text(a.values[1], b.values[1]);
        if a.values[2] is Some {
            spacing::lemma_same_null(a.values[2]->0, b.values[2]->0);
            lemma_same_function(a.values[2]->0, b.values[2]->0);
        }
    }
}

proof fn lemma_same_delta(x: Seq<char>, y: Seq<char>)
    requires
        spacing::same_value(x, y),
    ensures
        delta_in(x) == delta_in(y),
{
    let names = seq!["content"@, "tool_calls"@];
    spacing::lemma_same_bare_record(x, y, names);
    if let (Some(a), Some(b)) = (record::record(x, names), record::record(y, names)) {
        record::lemma_record_len(x, names);
        let entry = |t: Seq<char>| tool_call_delta_in(t);
        assert forall|s: Seq<char>, t: Seq<char>| #[trigger] spacing::same_value(s, t) implies entry(
            s,
        ) == entry(t) by {
            lemma_same_piece(s, t);
        }
        spacing::lemma_same_optional_text(a.values[0], b.values[0]);
        spacing::lemma_same_optional_entries(a.values[1], b.values[1], entry);
    }
}

proof fn lemma_same_choice(x: Seq<char>, y: Seq<char>)
    requires
        spacing::same_value(x, y),
    ensures
        choice_in(x) == choice_in(y),
{
    let names = seq!["delta"@, "finish_reason"@];
    spacing::lemma_same_bare_record(x, y, names);
    if let (Some(a), Some(b)) = (record::record(x, names), record::record(y, names)) {
        record::lemma_record_len(x, names);
        assert(spacing::same_field(a.values[0], b.values[0]));
        if a.values[0] is Some {
            lemma_same_delta(a.values[0]->0, b.values[0]->0);
        }
        spacing::lemma_same_optional_text(a.values[1], b.values[1]);
    }
}

/// White space around a chunk and between its tokens makes no difference, nor
/// does the way its strings are escaped.
pub proof fn law_layout_of_a_chunk(item: WrittenItem)
    requires
        layout::well_spaced_item(item),
    ensures
        chunk_in(layout::item_text(item)) == chunk_in(
            json::json_text(layout::plain(item.value)),
        ),
{
    let x = layout::item_text(item);
    let y = json::json_text(layout::plain(item.value));
    let names = seq!["choices"@];
    spacing::lemma_same_record(item, names);
    if let (Some(a), Some(b)) = (record::record(x, names), record::record(y, names)) {
        record::lemma_record_len(x, names);
        assert(spacing::same_field(a.values[0], b.values[0]));
        if a.values[0] is Some {
            let entry = |t: Seq<char>| choice_in(t);
            assert forall|s: Seq<char>, t: Seq<char>| #[trigger]
                spacing::same_value(s, t) implies entry(s) == entry(t) by {
                lemma_same_choice(s, t);
            }
            spacing::lemma_same_entries(a.values[0]->0, b.values[0]->0, entry);
        }
    }
}

proof fn lemma_same_reply_message(x: Seq<char>, y: Seq<char>)
    requires
        spacing::same_value(x, y),
    ensures
        reply_message_in(x) == reply_message_in(y),
{
    let names = seq!["content"@];
    spacing::lemma_same_bare_record(x, y, names);
    if let (Some(a), Some(b)) = (record::record(x, names), record::record(y, names)) {
        record::lemma_record_len(x, names);
        assert(spacing::same_field(a.values[0], b.values[0]));
        spacing::lemma_same_optional_text(a.values[0], b.values[0]);
    }
}

proof fn lemma_same_reply_choice(x: Seq<char>, y: Seq<char>)
    requires
        spacing::same_value(x, y),
    ensures
        reply_choice_in(x) == reply_choice_in(y),
{
    let names = seq!["message"@];
    spacing::lemma_same_bare_record(x, y, names);
    if let (Some(a), Some(b)) = (record::record(x, names), record::record(y, names)) {
        record::lemma_record_len(x, names);
        assert(spacing::same_field(a.values[0], b.values[0]));
        if a.values[0] is Some {
            lemma_same_reply_message(a.values[0]->0, b.values[0]->0);
        }
    }
}

/// White space around a whole reply and between its tokens makes no
/// difference, nor does the way its strings are escaped.
pub proof fn law_layout_of_a_reply(item: WrittenItem)
    requires
        layout::well_spaced_item(item),
    ensures
        reply_in(layout::item_text(item)) == reply_in(
            json::json_text(layout::plain(item.value)),
        ),
{
    let x = layout::item_text(item);
    let y = json::json_text(layout::plain(item.value));
    let names = seq!["choices"@];
    spacing::lemma_same_record(item, names);
    if let (Some(a), Some(b)) = (record::record(x, names), record::record(y, names)) {
        record::lemma_record_len(x, names);
        assert(spacing::same_field(a.values[0], b.values[0]));
        if a.values[0] is Some {
            let entry = |t: Seq<char>| reply_choice_in(t);
            assert forall|s: Seq<char>, t: Seq<char>| #[trigger]
                spacing::same_value(s, t) implies entry(s) == entry(t) by {
                lemma_same_reply_choice(s, t);
            }
            spacing::lemma_same_entries(a.values[0]->0, b.values[0]->0, entry);
        }
    }
}

// ---- What a reply says -----------------------------------------------------

/// The function that a value speaks of.
pub open spec fn function_meant(v: Json) -> Option<FunctionDeltaView> {
    match values::members(v, seq!["name"@, "arguments"@]) {
        Some(m) => match (
            values::optional(m[0], |v: Json| values::string_in(v)),
            values::optional(m[1], |v: Json| values::string_in(v)),
        ) {
            (Some(name), Some(arguments)) => Some(FunctionDeltaView { name, arguments }),
            _ => None,
        },
        None => None,
    }
}

/// The index that a value stands for; the first where there is none.
pub open spec fn index_meant(v: Option<Json>) -> Option<usize> {
    match v {
        None => Some(0),
        Some(Json::Num(n)) => match numbers::counted(n) {
            Some(k) => if k <= usize::MAX {
                Some(k as usize)
            } else {
                None
            },
            None => None,
        },
        _ => None,
    }
}

/// The piece of a call that a value stands for.
pub open spec fn piece_meant(v: Json) -> Option<ToolCallDeltaView> {
    match values::members(v, seq!["index"@, "id"@, "function"@]) {
        Some(m) => match (
            index_meant(m[0]),
            values::optional(m[1], |v: Json| values::string_in(v)),
            values::optional(m[2], |v: Json| function_meant(v)),
        ) {
            (Some(index), Some(id), Some(function)) => Some(
                ToolCallDeltaView { index, id, function },
            ),
            _ => None,
        },
        None => None,
    }
}

/// The addition that a value stands for.
pub open spec fn delta_meant(v: Json) -> Option<DeltaView> {
    match values::members(v, seq!["content"@, "tool_calls"@]) {
        Some(m) => match (
            values::optional(m[0], |v: Json| values::string_in(v)),
            values::optional(m[1], |v: Json| values::list_in(v, |v: Json| piece_meant(v))),
        ) {
            (Some(content), Some(tool_calls)) => Some(DeltaView { content, tool_calls }),
            _ => None,
        },
        None => None,
    }
}

/// The alternative that a value stands for. It may add nothing, and have no
/// reason to finish.
pub open spec fn choice_meant(v: Json) -> Option<ChoiceView> {
    match values::members(v, seq!["delta"@, "finish_reason"@]) {
        Some(m) => match (
            match m[0] {
                None => Some(DeltaView { content: None, tool_calls: None }),
                Some(v) => delta_meant(v),
            },
            values::optional(m[1], |v: Json| values::string_in(v)),
        ) {
            (Some(delta), Some(finish_reason)) => Some(ChoiceView { delta, finish_reason }),
            _ => None,
        },
        None => None,
    }
}

/// The chunk that a value stands for. It may have no alternatives.
pub open spec fn chunk_meant(v: Json) -> Option<ChunkView> {
    match values::members(v, seq!["choices"@]) {
        Some(m) => match m[0] {
            None => Some(ChunkView { choices: Seq::empty() }),
            Some(v) => match values::list_in(v, |v: Json| choice_meant(v)) {
                Some(choices) => Some(ChunkView { choices }),
                None => None,
            },
        },
        None => None,
    }
}

/// The alternative of a whole reply that a value stands for. Its message must
/// be there, with or without a content.
pub open spec fn reply_choice_meant(v: Json) -> Option<ReplyChoiceView> {
    match values::members(v, seq!["message"@]) {
        Some(m) => match m[0] {
            Some(message) => match values::members(message, seq!["content"@]) {
                Some(n) => if message is Arr && n[0] is None {
                    None
                } else {
                    match values::optional(n[0], |v: Json| values::string_in(v)) {
                        Some(content) => Some(
                            ReplyChoiceView { message: ReplyMessageView { content } },
                        ),
                        None => None,
                    }
                },
                None => None,
            },
            None => None,
        },
        None => None,
    }
}

/// The whole reply that a value stands for. Its alternatives must be there.
pub open spec fn reply_meant(v: Json) -> Option<ReplyView> {
    match values::members(v, seq!["choices"@]) {
        Some(m) => match m[0] {
            Some(v) => match values::list_in(v, |v: Json| reply_choice_meant(v)) {
                Some(choices) => Some(ReplyView { choices }),
                None => None,
            },
            None => None,
        },
        None => None,
    }
}

proof fn lemma_function_meant(v: Json)
    requires
        tool_laws::is_proper(v),
    ensures
        function_delta_in(json::json_text(v)) == function_meant(v),
{
    let names = seq!["name"@, "arguments"@];
    values::lemma_record(v, names);
    if let Some(r) = record::record(json::json_text(v), names) {
        let m = values::members(v, names)->0;
        assert(r.values[0] == values::text_where_given(m[0]));
        assert(r.values[1] == values::text_where_given(m[1]));
        values::lemma_optional_text(m[0]);
        values::lemma_optional_text(m[1]);
    }
}

proof fn lemma_piece_meant(v: Json)
    requires
        tool_laws::is_proper(v),
    ensures
        tool_call_delta_in(json::json_text(v)) == piece_meant(v),
{
    let names = seq!["index"@, "id"@, "function"@];
    values::lemma_record(v, names);
    if let Some(r) = record::record(json::json_text(v), names) {
        let m = values::members(v, names)->0;
        values::lemma_proper_members(v, names);
        assert(r.values[0] == values::text_where_given(m[0]));
        assert(r.values[1] == values::text_where_given(m[1]));
        assert(r.values[2] == values::text_where_given(m[2]));
        if let Some(index) = m[0] {
            values::lemma_number(index);
        }
        values::lemma_optional_text(m[1]);
        if let Some(function) = m[2] {
            values::lemma_null(function);
            lemma_function_meant(function);
        }
    }
}

proof fn lemma_delta_meant(v: Json)
    requires
        tool_laws::is_proper(v),
    ensures
        delta_in(json::json_text(v)) == delta_meant(v),
{
    let names = seq!["content"@, "tool_calls"@];
    values::lemma_record(v, names);
    if let Some(r) = record::record(json::json_text(v), names) {
        let m = values::members(v, names)->0;
        values::lemma_proper_members(v, names);
        assert(r.values[0] == values::text_where_given(m[0]));
        assert(r.values[1] == values::text_where_given(m[1]));
        values::lemma_optional_text(m[0]);
        let entry = |t: Seq<char>| tool_call_delta_in(t);
        let f = |v: Json| piece_meant(v);
        if let Some(Json::Arr(items)) = m[1] {
            values::lemma_proper_items(items);
            assert forall|i: int| 0 <= i < items.len() implies entry(
                json::json_text(#[trigger] items[i]),
            ) == f(items[i]) by {
                lemma_piece_meant(items[i]);
            }
        }
        values::lemma_optional_list(m[1], entry, f);
    }
}

proof fn lemma_choice_meant(v: Json)
    requires
        tool_laws::is_proper(v),
    ensures
        choice_in(json::json_text(v)) == choice_meant(v),
{
    let names = seq!["delta"@, "finish_reason"@];
    values::lemma_record(v, names);
    if let Some(r) = record::record(json::json_text(v), names) {
        let m = values::members(v, names)->0;
        values::lemma_proper_members(v, names);
        assert(r.values[0] == values::text_where_given(m[0]));
        assert(r.values[1] == values::text_where_given(m[1]));
        values::lemma_optional_text(m[1]);
        if let Some(delta) = m[0] {
            lemma_delta_meant(delta);
        }
    }
}

proof fn lemma_reply_choice_meant(v: Json)
    requires
        tool_laws::is_proper(v),
    ensures
        reply_choice_in(json::json_text(v)) == reply_choice_meant(v),
{
    let names = seq!["message"@];
    values::lemma_record(v, names);
    if let Some(r) = record::record(json::json_text(v), names) {
        let m = values::members(v, names)->0;
        values::lemma_proper_members(v, names);
        assert(r.values[0] == values::text_where_given(m[0]));
        if let Some(message) = m[0] {
            let inner = seq!["content"@];
            values::lemma_record(message, inner);
            if let Some(q) = record::record(json::json_text(message), inner) {
                let n = values::members(message, inner)->0;
                assert(q.values[0] == values::text_where_given(n[0]));
                values::lemma_optional_text(n[0]);
            }
        }
    }
}

/// A chunk is what its text says, field by field: the content, the pieces of
/// calls with their indices, ids, names and arguments, and the reason to
/// finish are the values under their names, character for character, in
/// whatever order they stand and however they are laid out. What a chunk leaves
/// out is left out here too, and a text of another shape is no chunk.
pub proof fn law_chunk_is_what_it_says(item: WrittenItem)
    requires
        layout::well_spaced_item(item),
        tool_laws::is_proper(layout::plain(item.value)),
    ensures
        chunk_in(layout::item_text(item)) == chunk_meant(layout::plain(item.value)),
{
    let v = layout::plain(item.value);
    law_layout_of_a_chunk(item);
    let names = seq!["choices"@];
    values::lemma_record(v, names);
    if let Some(r) = record::record(json::json_text(v), names) {
        let m = values::members(v, names)->0;
        values::lemma_proper_members(v, names);
        assert(r.values[0] == values::text_where_given(m[0]));
        if let Some(list) = m[0] {
            let entry = |t: Seq<char>| choice_in(t);
            let f = |v: Json| choice_meant(v);
            if let Json::Arr(items) = list {
                values::lemma_proper_items(items);
                assert forall|i: int| 0 <= i < items.len() implies entry(
                    json::json_text(#[trigger] items[i]),
                ) == f(items[i]) by {
                    lemma_choice_meant(items[i]);
                }
            }
            values::lemma_list(list, entry, f);
        }
    }
}

/// A whole reply is what its text says: the contents of its alternatives are
/// the values under their names, character for character and whatever the
/// length of the text, in whatever order they stand and however they are laid
/// out. A text of another shape is no reply.
pub proof fn law_reply_is_what_it_says(item: WrittenItem)
    requires
        layout::well_spaced_item(item),
        tool_laws::is_proper(layout::plain(item.value)),
    ensures
        reply_in(layout::item_text(item)) == reply_meant(layout::plain(item.value)),
{
    let v = layout::plain(item.value);
    law_layout_of_a_reply(item);
    let names = seq!["choices"@];
    values::lemma_record(v, names);
    if let Some(r) = record::record(json::json_text(v), names) {
        let m = values::members(v, names)->0;
        values::lemma_proper_members(v, names);
        assert(r.values[0] == values::text_where_given(m[0]));
        if let Some(list) = m[0] {
            let entry = |t: Seq<char>| reply_choice_in(t);
            let f = |v: Json| reply_choice_meant(v);
            if let Json::Arr(items) = list {
                values::lemma_proper_items(items);
                assert forall|i: int| 0 <= i < items.len() implies entry(
                    json::json_text(#[trigger] items[i]),
                ) == f(items[i]) by {
                    lemma_reply_choice_meant(items[i]);
                }
            }
            values::lemma_list(list, entry, f);
        }
    }
}

/// A chunk or a whole reply that gives its alternatives twice is none.
pub proof fn law_repeated_choices_are_refused(fields: Seq<(Seq<char>, Json)>, i: int, j: int)
    requires
        0 <= i < j < fields.len(),
        fields[i].0 == "choices"@,
        fields[j].0 == "choices"@,
    ensures
        chunk_in(json::json_text(Json::Obj(fields))) is None,
        reply_in(json::json_text(Json::Obj(fields))) is None,
{
    let names = seq!["choices"@];
    assert(names[0] == fields[i].0);
    record::law_repeated_name_is_refused(fields, names, i, j);
}

/// The views of replies leave nothing out and change nothing: each part is that
/// of the value itself.
pub proof fn law_views_of_replies(
    open_ai_stream_function_delta: OpenAiStreamFunctionDelta,
    open_ai_stream_tool_call_delta: OpenAiStreamToolCallDelta,
    open_ai_stream_delta: OpenAiStreamDelta,
    open_ai_stream_choice: OpenAiStreamChoice,
    open_ai_stream_chunk: OpenAiStreamChunk,
    open_ai_response_message: OpenAiResponseMessage,
    open_ai_choice: OpenAiChoice,
    open_ai_chat_response: OpenAiChatResponse,
)
    ensures
        open_ai_stream_function_delta.deep_view().name
            == open_ai_stream_function_delta.name.deep_view(),
        open_ai_stream_function_delta.deep_view().arguments
            == open_ai_stream_function_delta.arguments.deep_view(),
        open_ai_stream_tool_call_delta.deep_view().index == open_ai_stream_tool_call_delta.index,
        open_ai_stream_tool_call_delta.deep_view().id
            == open_ai_stream_tool_call_delta.id.deep_view(),
        open_ai_stream_tool_call_delta.deep_view().function
            == open_ai_stream_tool_call_delta.function.deep_view(),
        open_ai_stream_delta.deep_view().content == open_ai_stream_delta.content.deep_view(),
        open_ai_stream_delta.deep_view().tool_calls == open_ai_stream_delta.tool_calls.deep_view(),
        open_ai_stream_choice.deep_view().delta == open_ai_stream_choice.delta.deep_view(),
        open_ai_stream_choice.deep_view().finish_reason
            == open_ai_stream_choice.finish_reason.deep_view(),
        open_ai_stream_chunk.deep_view().choices == open_ai_stream_chunk.choices.deep_view(),
        open_ai_response_message.deep_view().content
            == open_ai_response_message.content.deep_view(),
        open_ai_choice.deep_view().message == open_ai_choice.message.deep_view(),
        open_ai_chat_response.deep_view().choices == open_ai_chat_response.choices.deep_view(),
{
}

/// A text that is no JSON is neither a chunk nor a whole reply.
pub proof fn law_replies_must_be_json(t: Seq<char>)
    requires
        json::value_text(t) is None,
    ensures
        chunk_in(t) is None,
        reply_in(t) is None,
{
}

/// A part of a reply that gives one of its fields twice is none.
pub proof fn law_repeated_field_of_a_reply_is_refused(
    fields: Seq<(Seq<char>, Json)>,
    i: int,
    j: int,
)
    requires
        0 <= i < j < fields.len(),
        fields[i].0 == fields[j].0,
    ensures
        seq!["name"@, "arguments"@].contains(fields[i].0) ==> function_delta_in(
            json::json_text(Json::Obj(fields)),
        ) is None,
        seq!["index"@, "id"@, "function"@].contains(fields[i].0) ==> tool_call_delta_in(
            json::json_text(Json::Obj(fields)),
        ) is None,
        seq!["content"@, "tool_calls"@].contains(fields[i].0) ==> delta_in(
            json::json_text(Json::Obj(fields)),
        ) is None,
        seq!["delta"@, "finish_reason"@].contains(fields[i].0) ==> choice_in(
            json::json_text(Json::Obj(fields)),
        ) is None,
        fields[i].0 == "message"@ ==> reply_choice_in(json::json_text(Json::Obj(fields))) is None,
        fields[i].0 == "content"@ ==> reply_message_in(json::json_text(Json::Obj(fields))) is None,
{
    let function = seq!["name"@, "arguments"@];
    let piece = seq!["index"@, "id"@, "function"@];
    let delta = seq!["content"@, "tool_calls"@];
    let choice = seq!["delta"@, "finish_reason"@];
    let reply = seq!["message"@];
    let message = seq!["content"@];
    if function.contains(fields[i].0) {
        record::law_repeated_name_is_refused(fields, function, i, j);
    }
    if piece.contains(fields[i].0) {
        record::law_repeated_name_is_refused(fields, piece, i, j);
    }
    if delta.contains(fields[i].0) {
        record::law_repeated_name_is_refused(fields, delta, i, j);
    }
    if choice.contains(fields[i].0) {
        record::law_repeated_name_is_refused(fields, choice, i, j);
    }
    if fields[i].0 == "message"@ {
        assert(reply[0] == fields[i].0);
        record::law_repeated_name_is_refused(fields, reply, i, j);
    }
    if fields[i].0 == "content"@ {
        assert(message[0] == fields[i].0);
        record::law_repeated_name_is_refused(fields, message, i, j);
    }
}

} // verus!
