//! What callers may rely on: the laws, said of what the public functions
//! return.

use vstd::prelude::*;

use crate::agent::Request;
use crate::agent::ResponseEvent;
use crate::agent::Timestamp;
use crate::agent::Tool;
use crate::agent::ToolResult;
use crate::buffered_dispatch;
use crate::buffered_dispatch::EndpointResponse;
use crate::buffered_dispatch::ExchangeOutcome;
use crate::buffered_dispatch::LocalExchange;
use crate::events;
use crate::events::DispatchError;
use crate::layout;
use crate::layout::WrittenItem;
use crate::local_dispatch;
use crate::local_dispatch::LocalStream;
use crate::local_provider;
use crate::local_provider::ApiKeys;
use crate::local_provider::LocalEndpointConfig;
use crate::local_provider::LocalEnv;
use crate::openai::ChatMessageView;
use crate::openai::OpenAiChatMessage;
use crate::openai::OpenAiChatRequest;
use crate::openai::OpenAiToolCall;
use crate::replies;
use crate::replies::OpenAiChatResponse;
use crate::replies::OpenAiStreamChunk;
use crate::streaming;
use crate::streaming::FrameData;
use crate::streaming::FrameDataView;
use crate::text;
use crate::tool_laws;
use crate::tool_results;
use crate::tools;

verus! {

// ---- Tools -----------------------------------------------------------------

/// A call builds the tool that its arguments ask for.
pub proof fn law_try_build_warp_tool(name: &str, args: &str, r: Option<Tool>, item: WrittenItem)
    requires
        call_ensures(tools::try_build_warp_tool, (name, args), r),
        args@ == layout::item_text(item),
        layout::well_spaced_item(item),
        tool_laws::is_proper(layout::plain(item.value)),
    ensures
        r.deep_view() == tool_laws::asked_for(name@, layout::plain(item.value)),
{
    tool_laws::law_call_builds_what_it_asks_for(name@, item);
}

/// A tool, but for those that are not advertised, becomes a call that builds it
/// again, as far as a call can carry it.
pub proof fn law_warp_tool_to_openai_tool_call(tool: Tool, id: &str, r: Option<OpenAiToolCall>)
    requires
        call_ensures(tools::warp_tool_to_openai_tool_call, (&tool, id), r),
    ensures
        r is None <==> tool is Other,
        r matches Some(call) ==> {
            &&& call.id@ == id@
            &&& call.kind@ == "function"@
            &&& tools::built_tool(call.function.name@, call.function.arguments@) == Some(
                tools::carried(tool.deep_view()),
            )
        },
{
    tools::law_calls_are_advertised(tool.deep_view(), id@);
    if !(tool is Other) {
        tools::law_round_trip(tool.deep_view(), id@);
        tools::law_call_says_what_its_tool_holds(tool.deep_view(), id@);
    }
}

/// The result of a tool becomes a message in the role of a tool, under the id of
/// the call and with the text of the result.
pub proof fn law_warp_tool_result_to_openai_message(
    id: String,
    result: ToolResult,
    r: Option<OpenAiChatMessage>,
    t: Option<String>,
)
    requires
        call_ensures(tool_results::warp_tool_result_to_openai_message, (id, &result), r),
        call_ensures(tool_results::format_tool_call_result, (&result,), t),
    ensures
        r is None <==> result is Other,
        t is None <==> result is Other,
        r matches Some(m) ==> {
            &&& m.role@ == "tool"@
            &&& m.tool_call_id.deep_view() == Some(id@)
            &&& m.tool_calls is None
            &&& m.content.deep_view() == t.deep_view()
            &&& t.deep_view() == tool_results::result_text(result.deep_view())
        },
{
    tool_results::law_result_message(id@, result.deep_view());
}

// ---- Requests --------------------------------------------------------------

/// A request with tools tells the model the whole conversation.
pub proof fn law_translate_request(
    request: Request,
    config: LocalEndpointConfig,
    r: Option<OpenAiChatRequest>,
)
    requires
        call_ensures(local_dispatch::translate_request, (&request, &config), r),
    ensures
        ({
            let told = local_dispatch::all_told(request.deep_view());
            &&& r is Some <==> exists|i: int|
                0 <= i < told.len() && ((#[trigger] told[i]).role == "user"@ || told[i].role
                    == "tool"@)
            &&& r matches Some(r) ==> {
                &&& r.messages.deep_view() == seq![
                    ChatMessageView {
                        role: "system"@,
                        content: Some(local_dispatch::SYSTEM_PROMPT@),
                        tool_call_id: None,
                        tool_calls: None,
                    },
                ] + told
                &&& r.model@ == config.model@
                &&& r.stream == Some(true)
                &&& r.tools.deep_view() == Some(tools::tool_catalog())
            }
        }),
{
    local_dispatch::law_request_tells_the_conversation(request.deep_view(), config.deep_view());
}

/// A request without tools tells the model what was said.
pub proof fn law_translate_buffered_request(
    request: Request,
    config: LocalEndpointConfig,
    r: Option<OpenAiChatRequest>,
)
    requires
        call_ensures(buffered_dispatch::translate_request, (&request, &config), r),
    ensures
        ({
            let told = buffered_dispatch::all_told(request.deep_view());
            &&& r is Some <==> exists|i: int|
                0 <= i < told.len() && (#[trigger] told[i]).role == "user"@
            &&& r matches Some(r) ==> {
                &&& r.messages.deep_view() == seq![
                    ChatMessageView {
                        role: "system"@,
                        content: Some(buffered_dispatch::SYSTEM_PROMPT@),
                        tool_call_id: None,
                        tool_calls: None,
                    },
                ] + told
                &&& r.model@ == config.model@
                &&& r.stream == Some(false)
                &&& r.tools is None
            }
        }),
{
    buffered_dispatch::law_request_tells_the_conversation(request.deep_view(), config.deep_view());
}

/// The new query is the last one of the batch, as it is.
pub proof fn law_extract_latest_user_query(request: Request, r: Option<String>)
    requires
        call_ensures(buffered_dispatch::extract_latest_user_query, (&request,), r),
    ensures
        r.deep_view() == buffered_dispatch::latest_query(request.deep_view()),
{
}

/// The reply goes to the last task.
pub proof fn law_pick_target_task_id(request: Request, r: Option<String>)
    requires
        call_ensures(events::pick_target_task_id, (&request,), r),
    ensures
        match request.deep_view().task_context {
            Some(context) => if context.tasks.len() > 0 {
                r.deep_view() == Some(context.tasks.last().id)
            } else {
                r is None
            },
            None => r is None,
        },
{
}

/// A request with tools that can be sent goes to the endpoint's completions,
/// with its token, and the reply begins afresh.
pub proof fn law_dispatch_local(
    request: Request,
    config: LocalEndpointConfig,
    request_id: String,
    message_id: String,
    r: Result<LocalStream, DispatchError>,
    chat: Option<OpenAiChatRequest>,
)
    requires
        call_ensures(
            local_dispatch::dispatch_local_with,
            (&request, &config, request_id, message_id),
            r,
        ),
        call_ensures(local_dispatch::translate_request, (&request, &config), chat),
    ensures
        chat is None <==> (r matches Err(e) && e == DispatchError::NoUserInput),
        r matches Ok(stream) ==> {
            &&& Some(stream.chat_request.deep_view()) == chat.deep_view()
            &&& stream.url@ == config.base_url@ + "/chat/completions"@
            &&& stream.api_key.deep_view() == config.api_key.deep_view()
            &&& stream.state.request_id@ == request_id@
            &&& stream.state.message_id@ == message_id@
            &&& Some(stream.state.task_id@) == events::target_task_id(request.deep_view())
            &&& stream.state.pending_init.deep_view() == Some(
                events::init_event(request.deep_view(), request_id@),
            )
            &&& !stream.state.emitted_init
            &&& !stream.state.emitted_placeholder
            &&& !stream.state.finished
        },
{
}

/// A request without tools that can be sent goes to the endpoint's completions,
/// with its token.
pub proof fn law_dispatch_buffered(
    request: Request,
    config: LocalEndpointConfig,
    request_id: String,
    r: Result<LocalExchange, DispatchError>,
    chat: Option<OpenAiChatRequest>,
)
    requires
        call_ensures(
            buffered_dispatch::dispatch_local_with,
            (&request, &config, request_id),
            r,
        ),
        call_ensures(buffered_dispatch::translate_request, (&request, &config), chat),
    ensures
        chat is None <==> (r matches Err(e) && e == DispatchError::NoUserInput),
        r matches Ok(exchange) ==> {
            &&& Some(exchange.chat_request.deep_view()) == chat.deep_view()
            &&& exchange.url@ == config.base_url@ + "/chat/completions"@
            &&& exchange.api_key.deep_view() == config.api_key.deep_view()
            &&& exchange.request_id@ == request_id@
            &&& Some(exchange.task_id@) == events::target_task_id(request.deep_view())
            &&& exchange.init.deep_view() == events::init_event(request.deep_view(), request_id@)
        },
{
}

// ---- Replies ---------------------------------------------------------------

/// A chunk is read as its text says.
pub proof fn law_read_chunk(t: &str, r: Option<OpenAiStreamChunk>, item: WrittenItem)
    requires
        call_ensures(OpenAiStreamChunk::from_json, (t,), r),
        t@ == layout::item_text(item),
        layout::well_spaced_item(item),
        tool_laws::is_proper(layout::plain(item.value)),
    ensures
        r.deep_view() == replies::chunk_meant(layout::plain(item.value)),
{
    replies::law_chunk_is_what_it_says(item);
}

/// A whole reply is read as its text says.
pub proof fn law_read_reply(t: &str, r: Option<OpenAiChatResponse>, item: WrittenItem)
    requires
        call_ensures(OpenAiChatResponse::from_json, (t,), r),
        t@ == layout::item_text(item),
        layout::well_spaced_item(item),
        tool_laws::is_proper(layout::plain(item.value)),
    ensures
        r.deep_view() == replies::reply_meant(layout::plain(item.value)),
{
    replies::law_reply_is_what_it_says(item);
}

/// The data of a frame is `[DONE]`, a chunk, or makes no sense; the white space
/// around it does not count.
pub proof fn law_read_data(
    before: Seq<char>,
    data: Seq<char>,
    after: Seq<char>,
    t: &str,
    r: FrameData,
)
    requires
        call_ensures(streaming::read_data, (t,), r),
        t@ == before + data + after,
        local_provider::is_blank(before),
        local_provider::is_tidy(data),
        local_provider::is_blank(after),
    ensures
        r.deep_view() == (if data == "[DONE]"@ {
            FrameDataView::Done
        } else {
            match replies::chunk_in(data) {
                Some(chunk) => FrameDataView::Chunk(chunk),
                None => FrameDataView::Malformed,
            }
        }),
{
    text::lemma_trimmed_padded(before, data, after);
}

/// A successful response brings the content of the first alternative in its
/// body, as it is and whatever the length of the body. Nothing else brings a
/// text.
pub proof fn law_read_response(
    response: EndpointResponse,
    r: Result<String, String>,
    item: WrittenItem,
)
    requires
        call_ensures(buffered_dispatch::read_response, (&response,), r),
        response.body@ == layout::item_text(item),
        layout::well_spaced_item(item),
        tool_laws::is_proper(layout::plain(item.value)),
    ensures
        match replies::reply_meant(layout::plain(item.value)) {
            Some(reply) => if response.success && reply.choices.len() > 0
                && reply.choices[0].message.content is Some {
                r matches Ok(t) && t@ == reply.choices[0].message.content->0
            } else {
                r is Err
            },
            None => r is Err,
        },
{
    replies::law_reply_is_what_it_says(item);
}

/// The events of a buffered reply open it, add its text to the task in one
/// message, and end it.
pub proof fn law_reply_events(
    exchange: LocalExchange,
    outcome: ExchangeOutcome,
    message_id: String,
    time: Timestamp,
    r: Vec<ResponseEvent>,
)
    requires
        call_ensures(
            buffered_dispatch::reply_events_with,
            (exchange, &outcome, message_id, time),
            r,
        ),
    ensures
        r.deep_view() == buffered_dispatch::reply_of(
            exchange.deep_view(),
            outcome.deep_view(),
            message_id@,
            time,
        ),
{
}

// ---- Settings --------------------------------------------------------------

/// A configuration is made of three settings.
pub proof fn law_build(
    base_url: Option<&str>,
    model: Option<&str>,
    api_key: Option<&str>,
    r: Option<LocalEndpointConfig>,
)
    requires
        call_ensures(LocalEndpointConfig::build, (base_url, model, api_key), r),
    ensures
        r.deep_view() == local_provider::resolved(
            base_url.deep_view(),
            model.deep_view(),
            api_key.deep_view(),
        ),
{
}

/// Each setting comes from the environment where it is set there, and else from
/// the stored keys; and local mode is configured exactly where they make a
/// configuration.
pub proof fn law_from_env_or_keys(
    env: LocalEnv,
    keys: ApiKeys,
    r: Option<LocalEndpointConfig>,
    configured: bool,
)
    requires
        call_ensures(LocalEndpointConfig::from_env_or_keys, (&env, &keys), r),
        call_ensures(local_provider::is_locally_configured, (&env, &keys), configured),
    ensures
        configured == (r is Some),
        r.deep_view() == local_provider::resolved(
            match env.endpoint.deep_view() {
                Some(e) => if local_provider::is_blank(e) {
                    keys.local_endpoint.deep_view()
                } else {
                    Some(e)
                },
                None => keys.local_endpoint.deep_view(),
            },
            match env.model.deep_view() {
                Some(m) => Some(m),
                None => keys.local_model.deep_view(),
            },
            match env.api_key.deep_view() {
                Some(k) => Some(k),
                None => keys.local_api_key.deep_view(),
            },
        ),
{
    local_provider::law_each_setting_has_its_source(env.deep_view(), keys.deep_view());
}

/// The environment alone, or the stored keys alone, make a configuration of
/// their own three settings.
pub proof fn law_from_one_source(
    env: LocalEnv,
    keys: ApiKeys,
    from_env: Option<LocalEndpointConfig>,
    from_keys: Option<LocalEndpointConfig>,
)
    requires
        call_ensures(LocalEndpointConfig::from_env, (&env,), from_env),
        call_ensures(LocalEndpointConfig::from_api_keys, (&keys,), from_keys),
    ensures
        from_env.deep_view() == local_provider::resolved(
            env.endpoint.deep_view(),
            env.model.deep_view(),
            env.api_key.deep_view(),
        ),
        from_keys.deep_view() == local_provider::resolved(
            keys.local_endpoint.deep_view(),
            keys.local_model.deep_view(),
            keys.local_api_key.deep_view(),
        ),
{
}

/// Completions are asked for below the base URL.
pub proof fn law_chat_completions_url(config: LocalEndpointConfig, r: String)
    requires
        call_ensures(LocalEndpointConfig::chat_completions_url, (&config,), r),
    ensures
        r@ == config.base_url@ + "/chat/completions"@,
{
}

// ---- Text ------------------------------------------------------------------

/// What is left of a text is its longest prefix of at most `max` bytes.
pub proof fn law_truncate_for_log(s: &str, max: usize, r: &str)
    requires
        call_ensures(text::truncate_for_log, (s, max), r),
    ensures
        r@.len() <= s@.len(),
        r@ == s@.take(r@.len() as int),
        vstd::utf8::encode_utf8(r@).len() <= max,
        r@.len() < s@.len() ==> vstd::utf8::encode_utf8(s@.take(r@.len() as int + 1)).len() > max,
{
    text::law_clipped_is_the_longest_that_fits(s@, max as nat);
}

/// Joining puts the separator between neighbours.
pub proof fn law_join(parts: Vec<String>, sep: &str, r: String)
    requires
        call_ensures(text::join, (&parts, sep), r),
    ensures
        parts@.len() == 0 ==> r@.len() == 0,
        parts@.len() == 1 ==> r@ == parts@[0]@,
        parts@.len() > 1 ==> r@ == text::joined(parts.deep_view().drop_last(), sep@) + sep@
            + parts@[parts@.len() - 1]@,
{
    let all = parts.deep_view();
    if parts@.len() > 0 {
        text::law_joined(all.drop_last(), all.last(), sep@);
        assert(all.drop_last().push(all.last()) =~= all);
        assert(all.last() == parts@[parts@.len() - 1]@);
    }
}

} // verus!
