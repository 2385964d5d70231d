//! The shapes of an OpenAI chat completion request.

use vstd::prelude::*;

verus! {

// ---- Requests --------------------------------------------------------------

/// A chat completion request.
#[derive(Debug, Clone)]
pub struct OpenAiChatRequest {
    pub model: String,
    pub messages: Vec<OpenAiChatMessage>,
    pub stream: Option<bool>,
    pub tools: Option<Vec<OpenAiTool>>,
}

/// One message of a conversation.
#[derive(Debug, Clone)]
pub struct OpenAiChatMessage {
    pub role: String,
    pub content: Option<String>,
    pub tool_call_id: Option<String>,
    pub tool_calls: Option<Vec<OpenAiToolCall>>,
}

/// A tool that the model may call.
#[derive(Debug, Clone)]
pub struct OpenAiTool {
    /// Goes by the name `type` on the wire.
    pub kind: String,
    pub function: OpenAiFunctionDef,
}

/// A function and the arguments it takes.
#[derive(Debug, Clone)]
pub struct OpenAiFunctionDef {
    pub name: String,
    pub description: String,
    /// The JSON Schema of the arguments, as JSON text.
    pub parameters: String,
}

/// A call of a tool that the model has made.
#[derive(Debug, Clone)]
pub struct OpenAiToolCall {
    pub id: String,
    /// Goes by the name `type` on the wire.
    pub kind: String,
    pub function: OpenAiFunctionCall,
}

/// A function's name and its arguments, as JSON text.
#[derive(Debug, Clone)]
pub struct OpenAiFunctionCall {
    pub name: String,
    pub arguments: String,
}

/// What [`OpenAiChatRequest`] holds.
#[verifier::ext_equal]
pub struct ChatRequestView {
    pub model: Seq<char>,
    pub messages: Seq<ChatMessageView>,
    pub stream: Option<bool>,
    pub tools: Option<Seq<ToolDefView>>,
}

/// What [`OpenAiChatMessage`] holds.
#[verifier::ext_equal]
pub struct ChatMessageView {
    pub role: Seq<char>,
    pub content: Option<Seq<char>>,
    pub tool_call_id: Option<Seq<char>>,
    pub tool_calls: Option<Seq<ToolCallView>>,
}

/// What [`OpenAiTool`] holds.
#[verifier::ext_equal]
pub struct ToolDefView {
    pub kind: Seq<char>,
    pub name: Seq<char>,
    pub description: Seq<char>,
    pub parameters: Seq<char>,
}

/// What [`OpenAiToolCall`] holds.
#[verifier::ext_equal]
pub struct ToolCallView {
    pub id: Seq<char>,
    pub kind: Seq<char>,
    pub name: Seq<char>,
    pub arguments: Seq<char>,
}

impl DeepView for OpenAiChatRequest {
    type V = ChatRequestView;

    open spec fn deep_view(&self) -> ChatRequestView {
        ChatRequestView {
            model: self.model@,
            messages: self.messages.deep_view(),
            stream: self.stream,
            tools: self.tools.deep_view(),
        }
    }
}

impl DeepView for OpenAiChatMessage {
    type V = ChatMessageView;

    open spec fn deep_view(&self) -> ChatMessageView {
        ChatMessageView {
            role: self.role@,
            content: self.content.deep_view(),
            tool_call_id: self.tool_call_id.deep_view(),
            tool_calls: self.tool_calls.deep_view(),
        }
    }
}

impl DeepView for OpenAiTool {
    type V = ToolDefView;

    open spec fn deep_view(&self) -> ToolDefView {
        ToolDefView {
            kind: self.kind@,
            name: self.function.name@,
            description: self.function.description@,
            parameters: self.function.parameters@,
        }
    }
}

impl DeepView for OpenAiToolCall {
    type V = ToolCallView;

    open spec fn deep_view(&self) -> ToolCallView {
        ToolCallView {
            id: self.id@,
            kind: self.kind@,
            name: self.function.name@,
            arguments: self.function.arguments@,
        }
    }
}

// ---- Laws ------------------------------------------------------------------

/// The views of chat requests leave nothing out and change nothing: each part is that
/// of the value itself.
pub proof fn law_views_of_chat_requests(
    open_ai_chat_request: OpenAiChatRequest,
    open_ai_chat_message: OpenAiChatMessage,
    open_ai_tool: OpenAiTool,
    open_ai_tool_call: OpenAiToolCall,
)
    ensures
        open_ai_chat_request.deep_view().model == open_ai_chat_request.model@,
        open_ai_chat_request.deep_view().messages == open_ai_chat_request.messages.deep_view(),
        open_ai_chat_request.deep_view().stream == open_ai_chat_request.stream,
        open_ai_chat_request.deep_view().tools == open_ai_chat_request.tools.deep_view(),
        open_ai_chat_message.deep_view().role == open_ai_chat_message.role@,
        open_ai_chat_message.deep_view().content == open_ai_chat_message.content.deep_view(),
        open_ai_chat_message.deep_view().tool_call_id
            == open_ai_chat_message.tool_call_id.deep_view(),
        open_ai_chat_message.deep_view().tool_calls == open_ai_chat_message.tool_calls.deep_view(),
        open_ai_tool.deep_view().kind == open_ai_tool.kind@,
        open_ai_tool.deep_view().name == open_ai_tool.function.name@,
        open_ai_tool.deep_view().description == open_ai_tool.function.description@,
        open_ai_tool.deep_view().parameters == open_ai_tool.function.parameters@,
        open_ai_tool_call.deep_view().id == open_ai_tool_call.id@,
        open_ai_tool_call.deep_view().kind == open_ai_tool_call.kind@,
        open_ai_tool_call.deep_view().name == open_ai_tool_call.function.name@,
        open_ai_tool_call.deep_view().arguments == open_ai_tool_call.function.arguments@,
{
}

} // verus!
