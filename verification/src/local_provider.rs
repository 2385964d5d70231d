//! Configuration of a user's OpenAI-compatible endpoint (Ollama, LM Studio,
//! llama.cpp server, vLLM, hosted gateways).

use vstd::prelude::*;
use vstd::string::StringExecFns;

use crate::text;

verus! {

// ---- Configuration ---------------------------------------------------------

/// Environment variable that, when set to a non-empty URL, supplies the
/// endpoint before any settings are reachable.
pub const LOCAL_ENDPOINT_ENV: &'static str = "WARP_LOCAL_AI_ENDPOINT";

/// Companion to [`LOCAL_ENDPOINT_ENV`]. If set, used as the model name.
pub const LOCAL_MODEL_ENV: &'static str = "WARP_LOCAL_AI_MODEL";

/// Optional bearer token for the endpoint.
pub const LOCAL_API_KEY_ENV: &'static str = "WARP_LOCAL_AI_API_KEY";

/// The stored keys that concern the local endpoint.
#[derive(Debug, Clone, PartialEq, Eq)]
pub struct ApiKeys {
    pub local_endpoint: Option<String>,
    pub local_model: Option<String>,
    pub local_api_key: Option<String>,
}

/// The values of the environment variables [`LOCAL_ENDPOINT_ENV`],
/// [`LOCAL_MODEL_ENV`] and [`LOCAL_API_KEY_ENV`], where they are set.
#[derive(Debug, Clone, PartialEq, Eq)]
pub struct LocalEnv {
    pub endpoint: Option<String>,
    pub model: Option<String>,
    pub api_key: Option<String>,
}

/// Resolved configuration for talking to the endpoint.
#[derive(Debug, Clone, PartialEq, Eq)]
pub struct LocalEndpointConfig {
    /// Base URL, typically ending in `/v1`. Not empty.
    pub base_url: String,
    /// Model identifier sent in the `model` field of each request.
    pub model: String,
    /// Optional bearer token. Most local runtimes ignore it.
    pub api_key: Option<String>,
}

/// What [`ApiKeys`] holds.
#[verifier::ext_equal]
pub struct ApiKeysView {
    pub local_endpoint: Option<Seq<char>>,
    pub local_model: Option<Seq<char>>,
    pub local_api_key: Option<Seq<char>>,
}

/// What [`LocalEnv`] holds.
#[verifier::ext_equal]
pub struct LocalEnvView {
    pub endpoint: Option<Seq<char>>,
    pub model: Option<Seq<char>>,
    pub api_key: Option<Seq<char>>,
}

/// What [`LocalEndpointConfig`] holds.
#[verifier::ext_equal]
pub struct ConfigView {
    pub base_url: Seq<char>,
    pub model: Seq<char>,
    pub api_key: Option<Seq<char>>,
}

impl DeepView for ApiKeys {
    type V = ApiKeysView;

    open spec fn deep_view(&self) -> ApiKeysView {
        ApiKeysView {
            local_endpoint: self.local_endpoint.deep_view(),
            local_model: self.local_model.deep_view(),
            local_api_key: self.local_api_key.deep_view(),
        }
    }
}

impl DeepView for LocalEnv {
    type V = LocalEnvView;

    open spec fn deep_view(&self) -> LocalEnvView {
        LocalEnvView {
            endpoint: self.endpoint.deep_view(),
            model: self.model.deep_view(),
            api_key: self.api_key.deep_view(),
        }
    }
}

impl DeepView for LocalEndpointConfig {
    type V = ConfigView;

    open spec fn deep_view(&self) -> ConfigView {
        ConfigView {
            base_url: self.base_url@,
            model: self.model@,
            api_key: self.api_key.deep_view(),
        }
    }
}

impl Default for ApiKeys {
    fn default() -> (r: Self)
        ensures
            r.local_endpoint is None,
            r.local_model is None,
            r.local_api_key is None,
    {
        ApiKeys { local_endpoint: None, local_model: None, local_api_key: None }
    }
}

impl Default for LocalEnv {
    fn default() -> (r: Self)
        ensures
            r.endpoint is None,
            r.model is None,
            r.api_key is None,
    {
        LocalEnv { endpoint: None, model: None, api_key: None }
    }
}

/// A text that says something once trimmed, or nothing.
pub open spec fn non_blank(s: Option<Seq<char>>) -> Option<Seq<char>> {
    match s {
        Some(s) => if text::trimmed(s).len() > 0 {
            Some(text::trimmed(s))
        } else {
            None
        },
        None => None,
    }
}

/// The base URL that an endpoint setting stands for.
pub open spec fn base_url_of(endpoint: Seq<char>) -> Seq<char> {
    text::without_trailing(text::trimmed(endpoint), '/')
}

/// The configuration that the three settings make, if they make one.
pub open spec fn resolved(
    endpoint: Option<Seq<char>>,
    model: Option<Seq<char>>,
    api_key: Option<Seq<char>>,
) -> Option<ConfigView> {
    match (endpoint, model) {
        (Some(e), Some(m)) => if base_url_of(e).len() > 0 && text::trimmed(m).len() > 0 {
            Some(
                ConfigView {
                    base_url: base_url_of(e),
                    model: text::trimmed(m),
                    api_key: non_blank(api_key),
                },
            )
        } else {
            None
        },
        _ => None,
    }
}

/// `first` where it is there, else `second`.
pub open spec fn preferring(
    first: Option<Seq<char>>,
    second: Option<Seq<char>>,
) -> Option<Seq<char>> {
    match first {
        Some(s) => Some(s),
        None => second,
    }
}

/// A setting that says something, as it stands; a blank one is none.
pub open spec fn unless_blank(s: Option<Seq<char>>) -> Option<Seq<char>> {
    if non_blank(s) is Some {
        s
    } else {
        None
    }
}

/// There is a stored endpoint that stands for a base URL.
pub open spec fn has_endpoint(keys: ApiKeysView) -> bool {
    keys.local_endpoint matches Some(e) && base_url_of(e).len() > 0
}

/// The configuration in the stored keys.
pub open spec fn resolved_from_keys(keys: ApiKeysView) -> Option<ConfigView> {
    resolved(keys.local_endpoint, keys.local_model, keys.local_api_key)
}

/// The configuration in the environment.
pub open spec fn resolved_from_env(env: LocalEnvView) -> Option<ConfigView> {
    resolved(env.endpoint, env.model, env.api_key)
}

/// The configuration where each setting of the environment comes before the
/// stored one. A blank endpoint in the environment supplies none.
pub open spec fn resolved_from_env_or_keys(
    env: LocalEnvView,
    keys: ApiKeysView,
) -> Option<ConfigView> {
    resolved(
        preferring(unless_blank(env.endpoint), keys.local_endpoint),
        preferring(env.model, keys.local_model),
        preferring(env.api_key, keys.local_api_key),
    )
}

/// Where chat completions are asked for.
pub open spec fn completions_url(base_url: Seq<char>) -> Seq<char> {
    base_url + "/chat/completions"@
}

fn as_str_option(s: &Option<String>) -> (r: Option<&str>)
    ensures
        r.deep_view() == s.deep_view(),
{
    match s {
        Some(s) => Some(s.as_str()),
        None => None,
    }
}

fn first_of<'a>(first: &'a Option<String>, second: &'a Option<String>) -> (r: Option<&'a str>)
    ensures
        r.deep_view() == preferring(first.deep_view(), second.deep_view()),
{
    match first {
        Some(s) => Some(s.as_str()),
        None => as_str_option(second),
    }
}

fn endpoint_of<'a>(env: &'a LocalEnv, keys: &'a ApiKeys) -> (r: Option<&'a str>)
    ensures
        r.deep_view() == preferring(
            unless_blank(env.deep_view().endpoint),
            keys.deep_view().local_endpoint,
        ),
{
    match &env.endpoint {
        Some(s) => if s.as_str().trim().is_empty() {
            as_str_option(&keys.local_endpoint)
        } else {
            Some(s.as_str())
        },
        None => as_str_option(&keys.local_endpoint),
    }
}

impl ApiKeys {
    /// Whether an endpoint is stored that a configuration can be made with.
    pub fn has_local_endpoint(&self) -> (r: bool)
        ensures
            r == has_endpoint(self.deep_view()),
    {
        match &self.local_endpoint {
            Some(s) => !text::trim_end_char(s.as_str().trim(), '/').is_empty(),
            None => false,
        }
    }
}

impl LocalEndpointConfig {
    /// Builds a config from the stored [`ApiKeys`], or returns `None` if
    /// either the endpoint URL or the model name is missing.
    pub fn from_api_keys(keys: &ApiKeys) -> (r: Option<Self>)
        ensures
            r.deep_view() == resolved_from_keys(keys.deep_view()),
    {
        Self::build(
            as_str_option(&keys.local_endpoint),
            as_str_option(&keys.local_model),
            as_str_option(&keys.local_api_key),
        )
    }

    /// Builds a config from environment variables only, ignoring stored
    /// keys. Useful at boot time, before any settings are reachable.
    pub fn from_env(env: &LocalEnv) -> (r: Option<Self>)
        ensures
            r.deep_view() == resolved_from_env(env.deep_view()),
    {
        Self::build(
            as_str_option(&env.endpoint),
            as_str_option(&env.model),
            as_str_option(&env.api_key),
        )
    }

    /// Builds a config preferring environment variables where set, falling
    /// back to stored [`ApiKeys`]. The variables override individual fields,
    /// so a user can pin just the URL and leave the model in settings. An
    /// endpoint variable that is blank does not count as set.
    pub fn from_env_or_keys(env: &LocalEnv, keys: &ApiKeys) -> (r: Option<Self>)
        ensures
            r.deep_view() == resolved_from_env_or_keys(env.deep_view(), keys.deep_view()),
    {
        Self::build(
            endpoint_of(env, keys),
            first_of(&env.model, &keys.local_model),
            first_of(&env.api_key, &keys.local_api_key),
        )
    }

    /// Builds a config from the three settings. White space around them and
    /// slashes at the end of the URL do not count; a blank one is as good as
    /// none.
    pub fn build(base_url: Option<&str>, model: Option<&str>, api_key: Option<&str>) -> (r: Option<
        Self,
    >)
        ensures
            r.deep_view() == resolved(
                base_url.deep_view(),
                model.deep_view(),
                api_key.deep_view(),
            ),
    {
        let base_url: &str = match base_url {
            Some(s) => text::trim_end_char(s.trim(), '/'),
            None => {
                return None;
            },
        };
        if base_url.is_empty() {
            return None;
        }
        let model: &str = match model {
            Some(s) => s.trim(),
            None => {
                return None;
            },
        };
        if model.is_empty() {
            return None;
        }
        let api_key: Option<String> = match api_key {
            Some(s) => {
                let s: &str = s.trim();
                if s.is_empty() {
                    None
                } else {
                    Some(s.to_string())
                }
            },
            None => None,
        };
        Some(
            LocalEndpointConfig {
                base_url: base_url.to_string(),
                model: model.to_string(),
                api_key,
            },
        )
    }

    /// Full URL to POST chat completions to.
    pub fn chat_completions_url(&self) -> (r: String)
        ensures
            r@ == completions_url(self.base_url@),
    {
        let mut url: String = self.base_url.clone();
        url.append("/chat/completions");
        url
    }
}

/// Whether local mode is configured anywhere, in the environment or in the
/// stored keys.
pub fn is_locally_configured(env: &LocalEnv, keys: &ApiKeys) -> (r: bool)
    ensures
        r == (resolved_from_env_or_keys(env.deep_view(), keys.deep_view()) is Some),
{
    LocalEndpointConfig::from_env_or_keys(env, keys).is_some()
}

/// Errors of the local dispatcher.
#[derive(Debug, Clone, Copy, PartialEq, Eq, Structural)]
pub enum LocalDispatcherError {
    NotConfigured,
    NotImplemented,
}

impl LocalDispatcherError {
    /// The error in words.
    pub fn message(&self) -> (r: String)
        ensures
            r@ == match self {
                LocalDispatcherError::NotConfigured => "local endpoint is not configured"@,
                LocalDispatcherError::NotImplemented =>
                    "local dispatcher is not yet implemented (Stage 2)"@,
            },
    {
        match self {
            LocalDispatcherError::NotConfigured => "local endpoint is not configured".to_string(),
            LocalDispatcherError::NotImplemented =>
                "local dispatcher is not yet implemented (Stage 2)".to_string(),
        }
    }
}

// ---- Laws ------------------------------------------------------------------

/// A resolved configuration is usable: the base URL says something and does
/// not end in a slash, the model and the token, if there is one, say
/// something and carry no white space at their ends.
pub proof fn law_config_is_usable(
    endpoint: Option<Seq<char>>,
    model: Option<Seq<char>>,
    api_key: Option<Seq<char>>,
)
    ensures
        resolved(endpoint, model, api_key) matches Some(c) ==> {
            &&& c.base_url.len() > 0
            &&& c.base_url.last() != '/'
            &&& !text::is_white_space(c.base_url[0])
            &&& c.model.len() > 0
            &&& !text::is_white_space(c.model[0])
            &&& !text::is_white_space(c.model.last())
            &&& c.api_key matches Some(k) ==> k.len() > 0 && !text::is_white_space(k[0])
                && !text::is_white_space(k.last())
        },
{
    if let (Some(e), Some(m)) = (endpoint, model) {
        text::lemma_trimmed_ends(e);
        text::lemma_trimmed_ends(m);
        text::lemma_without_trailing(text::trimmed(e), '/');
    }
    if let Some(k) = api_key {
        text::lemma_trimmed_ends(k);
    }
}

/// A blank endpoint or model is as good as none: it makes no configuration.
pub proof fn law_blank_is_unset(
    endpoint: Option<Seq<char>>,
    model: Option<Seq<char>>,
    api_key: Option<Seq<char>>,
)
    requires
        non_blank(endpoint) is None || non_blank(model) is None,
    ensures
        resolved(endpoint, model, api_key) is None,
{
    if let Some(e) = endpoint {
        text::lemma_without_trailing(text::trimmed(e), '/');
    }
}

/// A slash at the end of the endpoint makes no difference, unless white space
/// stands before it.
pub proof fn law_trailing_slash_is_ignored(
    endpoint: Seq<char>,
    model: Option<Seq<char>>,
    api_key: Option<Seq<char>>,
)
    requires
        endpoint.len() > 0 ==> !text::is_white_space(endpoint.last()),
    ensures
        resolved(Some(endpoint.push('/')), model, api_key) == resolved(
            Some(endpoint),
            model,
            api_key,
        ),
{
    text::lemma_trimmed_push(endpoint, '/');
    let t = text::trimmed(endpoint);
    assert(t.push('/').drop_last() =~= t);
}

/// With nothing in the environment the stored keys decide; where the
/// environment sets everything, it decides. A blank endpoint sets nothing.
pub proof fn law_environment_overrides(env: LocalEnvView, keys: ApiKeysView)
    ensures
        non_blank(env.endpoint) is None && env.model is None && env.api_key is None
            ==> resolved_from_env_or_keys(env, keys) == resolved_from_keys(keys),
        non_blank(env.endpoint) is Some && env.model is Some && env.api_key is Some
            ==> resolved_from_env_or_keys(env, keys) == resolved_from_env(env),
{
}

/// A setting of the environment hides the stored one: a stored endpoint makes
/// no difference where the environment supplies one that is not blank, and
/// neither does a stored model or token where the environment sets it.
pub proof fn law_overridden_keys_do_not_matter(
    env: LocalEnvView,
    keys: ApiKeysView,
    other: ApiKeysView,
)
    requires
        non_blank(env.endpoint) is None ==> keys.local_endpoint == other.local_endpoint,
        env.model is None ==> keys.local_model == other.local_model,
        env.api_key is None ==> keys.local_api_key == other.local_api_key,
    ensures
        resolved_from_env_or_keys(env, keys) == resolved_from_env_or_keys(env, other),
{
}

/// Stored keys have a local endpoint exactly where, given a model, they make
/// a configuration. A blank endpoint is none.
pub proof fn law_endpoint_matches_resolution(keys: ApiKeysView)
    ensures
        resolved_from_keys(keys) is Some <==> has_endpoint(keys) && non_blank(
            keys.local_model,
        ) is Some,
        has_endpoint(keys) ==> non_blank(keys.local_endpoint) is Some,
{
    if let Some(e) = keys.local_endpoint {
        text::lemma_without_trailing(text::trimmed(e), '/');
    }
}

/// All of it is white space.
pub open spec fn is_blank(s: Seq<char>) -> bool {
    forall|i: int| 0 <= i < s.len() ==> text::is_white_space(#[trigger] s[i])
}

/// All of it is slashes.
pub open spec fn is_slashes(s: Seq<char>) -> bool {
    forall|i: int| 0 <= i < s.len() ==> #[trigger] s[i] == '/'
}

/// The text says something, and no white space stands at its ends.
pub open spec fn is_tidy(s: Seq<char>) -> bool {
    s.len() > 0 && !text::is_white_space(s[0]) && !text::is_white_space(s.last())
}

proof fn lemma_blank_parts(a: Seq<char>, b: Seq<char>)
    requires
        is_blank(a),
        is_blank(b),
    ensures
        text::trimmed(a + b).len() == 0,
{
    let s = a + b;
    assert forall|i: int| 0 <= i < s.len() implies text::is_white_space(#[trigger] s[i]) by {
        if i < a.len() {
            assert(text::is_white_space(a[i]));
        } else {
            assert(text::is_white_space(b[i - a.len()]));
        }
    }
    text::law_blank_text_is_trimmed_away(s);
}

/// Settings are taken as they are, but for white space around them and slashes
/// at the end of the URL: those are taken off, and nothing else.
pub proof fn law_settings_are_taken_as_they_are(
    before: Seq<char>,
    url: Seq<char>,
    slashes: Seq<char>,
    after: Seq<char>,
    model_before: Seq<char>,
    model: Seq<char>,
    model_after: Seq<char>,
    key_before: Seq<char>,
    key: Seq<char>,
    key_after: Seq<char>,
)
    requires
        is_blank(before),
        is_tidy(url + slashes),
        url.len() > 0,
        url.last() != '/',
        is_slashes(slashes),
        is_blank(after),
        is_blank(model_before),
        is_tidy(model),
        is_blank(model_after),
        is_blank(key_before),
        is_tidy(key),
        is_blank(key_after),
    ensures
        resolved(
            Some(before + (url + slashes) + after),
            Some(model_before + model + model_after),
            Some(key_before + key + key_after),
        ) == Some(ConfigView { base_url: url, model, api_key: Some(key) }),
        resolved(
            Some(before + (url + slashes) + after),
            Some(model_before + model + model_after),
            None,
        ) == Some(ConfigView { base_url: url, model, api_key: None }),
        resolved(
            Some(before + (url + slashes) + after),
            Some(model_before + model + model_after),
            Some(key_before + key_after),
        ) == Some(ConfigView { base_url: url, model, api_key: None }),
{
    text::lemma_trimmed_padded(before, url + slashes, after);
    text::law_text_without_run_is_kept(url, '/', slashes);
    text::lemma_trimmed_padded(model_before, model, model_after);
    text::lemma_trimmed_padded(key_before, key, key_after);
    lemma_blank_parts(key_before, key_after);
}

/// There is no configuration without a URL or without a model: where one is not
/// set or is blank, or the URL is only slashes.
pub proof fn law_no_config_without_url_and_model(
    endpoint: Option<Seq<char>>,
    model: Option<Seq<char>>,
    api_key: Option<Seq<char>>,
    before: Seq<char>,
    slashes: Seq<char>,
    after: Seq<char>,
)
    requires
        is_blank(before),
        is_slashes(slashes),
        is_blank(after),
        endpoint is None || model is None || endpoint == Some(before + slashes + after) || is_blank(
            model->0,
        ),
    ensures
        resolved(endpoint, model, api_key) is None,
        has_endpoint(
            ApiKeysView { local_endpoint: endpoint, local_model: model, local_api_key: api_key },
        ) ==> endpoint is Some && endpoint != Some(before + slashes + after),
{
    if let Some(m) = model {
        text::law_blank_text_is_trimmed_away(m);
    }
    if endpoint == Some(before + slashes + after) {
        let e = endpoint->0;
        if slashes.len() == 0 {
            assert(e =~= before + after);
            lemma_blank_parts(before, after);
            text::lemma_without_trailing(text::trimmed(e), '/');
        } else {
            assert(slashes[0] == '/' && slashes[slashes.len() - 1] == '/');
            text::lemma_trimmed_padded(before, slashes, after);
            assert(Seq::<char>::empty() + slashes =~= slashes);
            text::law_text_without_run_is_kept(Seq::empty(), '/', slashes);
        }
    }
}

/// Each setting comes from the environment where it is set there, and else from
/// the stored keys. An endpoint that is blank counts as not set.
pub proof fn law_each_setting_has_its_source(env: LocalEnvView, keys: ApiKeysView)
    ensures
        resolved_from_env_or_keys(env, keys) == resolved(
            match env.endpoint {
                Some(e) => if is_blank(e) {
                    keys.local_endpoint
                } else {
                    Some(e)
                },
                None => keys.local_endpoint,
            },
            match env.model {
                Some(m) => Some(m),
                None => keys.local_model,
            },
            match env.api_key {
                Some(k) => Some(k),
                None => keys.local_api_key,
            },
        ),
        resolved_from_env(env) == resolved(env.endpoint, env.model, env.api_key),
        resolved_from_keys(keys) == resolved(
            keys.local_endpoint,
            keys.local_model,
            keys.local_api_key,
        ),
{
    if let Some(e) = env.endpoint {
        text::law_blank_text_is_trimmed_away(e);
    }
}

/// Completions are asked for below the base URL.
pub proof fn law_completions_are_below_the_base(base_url: Seq<char>)
    ensures
        completions_url(base_url) == base_url + "/chat/completions"@,
{
}

/// There is a stored endpoint exactly where a configuration can be made with
/// it.
pub proof fn law_stored_endpoint_can_be_used(keys: ApiKeysView, model: Seq<char>)
    requires
        is_tidy(model),
    ensures
        has_endpoint(keys) <==> resolved(
            keys.local_endpoint,
            Some(model),
            keys.local_api_key,
        ) is Some,
{
    text::law_blank_text_is_trimmed_away(model);
}

/// The views of settings leave nothing out and change nothing: each part is that
/// of the value itself.
pub proof fn law_views_of_settings(
    api_keys: ApiKeys,
    local_env: LocalEnv,
    local_endpoint_config: LocalEndpointConfig,
)
    ensures
        api_keys.deep_view().local_endpoint == api_keys.local_endpoint.deep_view(),
        api_keys.deep_view().local_model == api_keys.local_model.deep_view(),
        api_keys.deep_view().local_api_key == api_keys.local_api_key.deep_view(),
        local_env.deep_view().endpoint == local_env.endpoint.deep_view(),
        local_env.deep_view().model == local_env.model.deep_view(),
        local_env.deep_view().api_key == local_env.api_key.deep_view(),
        local_endpoint_config.deep_view().base_url == local_endpoint_config.base_url@,
        local_endpoint_config.deep_view().model == local_endpoint_config.model@,
        local_endpoint_config.deep_view().api_key == local_endpoint_config.api_key.deep_view(),
{
}

} // verus!
