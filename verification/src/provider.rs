//! The NVIDIA NIM provider: what it can do, who pays, and where its models come
//! from.

use vstd::prelude::*;
use crate::chat_request::ApiRequest;
use crate::headers::{etag_text, header_fields, response_etag};
use crate::models::{listed_catalog, parse_nvidia_nim_models, ModelInfo, OpenAiModel};
use crate::protocol::{CodexErr, CodexErrView};
use crate::text::{blank, is_blank, opt_view, views};

verus! {

/// How many seconds a model list may take to arrive.
pub const MODELS_REFRESH_TIMEOUT_SECS: u64 = 5;

/// The file that caches the model list.
pub const NVIDIA_NIM_MODELS_CACHE_FILE: &'static str = "nvidia_nim_models_cache.json";

/// The hosted endpoint.
pub const NVIDIA_NIM_BASE_URL: &'static str = "https://integrate.api.nvidia.com/v1";

/// The environment variable that holds the API key.
pub const NVIDIA_NIM_API_KEY_VARIABLE: &'static str = "NVIDIA_API_KEY";

/// The environment variable that holds the address of another endpoint.
pub const NVIDIA_NIM_BASE_URL_VARIABLE: &'static str = "CODEX_NVIDIA_NIM_BASE_URL";

/// How a provider is configured: its base address, the environment variable that
/// holds its API key, where it has one, and whether a command supplies its
/// credentials.
#[derive(Debug, PartialEq)]
pub struct ModelProviderInfo {
    pub base_url: Option<String>,
    pub env_key: Option<String>,
    pub command_auth: bool,
}

pub struct ModelProviderInfoView {
    pub base_url: Option<Seq<char>>,
    pub env_key: Option<Seq<char>>,
    pub command_auth: bool,
}

impl View for ModelProviderInfo {
    type V = ModelProviderInfoView;

    open spec fn view(&self) -> ModelProviderInfoView {
        ModelProviderInfoView {
            base_url: opt_view(self.base_url),
            env_key: opt_view(self.env_key),
            command_auth: self.command_auth,
        }
    }
}

impl ModelProviderInfo {
    /// The configuration for NVIDIA NIM: the hosted endpoint, or the one given in
    /// its place, with an API key from the environment.
    pub fn create_nvidia_nim_provider(custom_base_url: Option<String>) -> (info: ModelProviderInfo)
        ensures
            opt_view(info.base_url) == (match custom_base_url {
                Some(address) => Some(address@),
                None => Some(NVIDIA_NIM_BASE_URL@),
            }),
            opt_view(info.env_key) == Some(NVIDIA_NIM_API_KEY_VARIABLE@),
            !info.command_auth,
    {
        let base_url = match custom_base_url {
            Some(address) => address,
            None => NVIDIA_NIM_BASE_URL.to_string(),
        };
        ModelProviderInfo {
            base_url: Some(base_url),
            env_key: Some(NVIDIA_NIM_API_KEY_VARIABLE.to_string()),
            command_auth: false,
        }
    }
}

/// Which hosted features a provider has.
#[derive(Debug, Clone, Copy, PartialEq, Eq, Structural)]
pub struct ProviderCapabilities {
    pub namespace_tools: bool,
    pub image_generation: bool,
    pub web_search: bool,
}

/// With what a provider is paid.
#[derive(Debug, Clone, Copy, PartialEq, Eq, Structural)]
pub enum ProviderAccount {
    ApiKey,
}

/// Whether there is an account, and whether an OpenAI login is needed.
#[derive(Debug, Clone, Copy, PartialEq, Eq, Structural)]
pub struct ProviderAccountState {
    pub account: Option<ProviderAccount>,
    pub requires_openai_auth: bool,
}

/// Where the models come from.
#[derive(Debug, PartialEq)]
pub enum ModelsSource {
    /// A catalog that stays as it is.
    Static(Vec<ModelInfo>),
    /// The endpoint, on top of a base catalog and with a cache file.
    Remote {
        endpoint: NvidiaNimModelsEndpoint,
        base_catalog: Vec<ModelInfo>,
        cache_file: &'static str,
        use_remote_models_only: bool,
    },
}

/// Runtime provider for NVIDIA NIM OpenAI-compatible endpoints. Its credentials are
/// looked up with `auth_login` and its configuration.
#[derive(Debug, PartialEq)]
pub struct NvidiaNimModelProvider<A> {
    pub info: ModelProviderInfo,
    pub auth_login: Option<A>,
}

/// The provider of a configuration and of the login that the caller has: the login
/// is not for this provider, so credentials are looked up without one.
pub open spec fn provider_of<A>(
    provider_info: ModelProviderInfo,
    auth_manager: Option<A>,
) -> NvidiaNimModelProvider<A> {
    NvidiaNimModelProvider { info: provider_info, auth_login: None }
}

/// What a way to look up credentials finds for a provider.
pub open spec fn auth_manager_of<A, M>(
    provider: NvidiaNimModelProvider<A>,
    lookup: spec_fn(Option<A>, ModelProviderInfo) -> M,
) -> M {
    lookup(provider.auth_login, provider.info)
}

/// The caller's login is never used: whatever it is, the provider is the same, and
/// any way to look up credentials finds for it what it finds for the configuration
/// without a login.
pub proof fn law_caller_login_is_never_used<A, M>(
    provider_info: ModelProviderInfo,
    first: Option<A>,
    second: Option<A>,
    lookup: spec_fn(Option<A>, ModelProviderInfo) -> M,
)
    ensures
        provider_of(provider_info, first) == provider_of(provider_info, second),
        provider_of(provider_info, first).info == provider_info,
        auth_manager_of(provider_of(provider_info, first), lookup) == lookup(None, provider_info),
        auth_manager_of(provider_of(provider_info, second), lookup) == lookup(None, provider_info),
{
}

impl<A> NvidiaNimModelProvider<A> {
    /// The provider of a configuration. The login that the caller has is dropped.
    pub fn new(provider_info: ModelProviderInfo, auth_manager: Option<A>) -> (provider:
        NvidiaNimModelProvider<A>)
        ensures
            provider == provider_of(provider_info, auth_manager),
    {
        NvidiaNimModelProvider { info: provider_info, auth_login: None }
    }

    /// What the credentials are to be looked up with.
    pub fn auth_lookup(&self) -> (lookup: (Option<&A>, &ModelProviderInfo))
        ensures
            lookup.0 == (match self.auth_login {
                Some(login) => Some(&login),
                None => None,
            }),
            *lookup.1 == self.info,
    {
        (self.auth_login.as_ref(), &self.info)
    }

    pub fn info(&self) -> (info: &ModelProviderInfo)
        ensures
            *info == self.info,
    {
        &self.info
    }

    /// None of the hosted features.
    pub fn capabilities(&self) -> (capabilities: ProviderCapabilities)
        ensures
            capabilities == (ProviderCapabilities {
                namespace_tools: false,
                image_generation: false,
                web_search: false,
            }),
    {
        ProviderCapabilities {
            namespace_tools: false,
            image_generation: false,
            web_search: false,
        }
    }

    /// The account, given what the environment variable of the provider holds.
    /// There is one where the provider has such a variable and it holds a key that
    /// is not blank. An OpenAI login is never needed.
    pub fn account_state(&self, api_key: Option<&str>) -> (state: ProviderAccountState)
        ensures
            state.account == (match (self.info.env_key, api_key) {
                (Some(_), Some(key)) if !blank(key@) => Some(ProviderAccount::ApiKey),
                _ => None,
            }),
            state.requires_openai_auth == false,
    {
        let mut account: Option<ProviderAccount> = None;
        if self.info.env_key.is_some() {
            if let Some(key) = api_key {
                if !is_blank(key) {
                    account = Some(ProviderAccount::ApiKey);
                }
            }
        }
        ProviderAccountState { account, requires_openai_auth: false }
    }

    /// The endpoint that lists the models, with the configuration of the provider.
    pub fn models_endpoint(&self) -> (endpoint: NvidiaNimModelsEndpoint)
        ensures
            endpoint.provider_info@ == self.info@,
    {
        let base_url = match &self.info.base_url {
            Some(address) => Some(address.clone()),
            None => None,
        };
        let env_key = match &self.info.env_key {
            Some(variable) => Some(variable.clone()),
            None => None,
        };
        NvidiaNimModelsEndpoint::new(
            ModelProviderInfo { base_url, env_key, command_auth: self.info.command_auth },
        )
    }

    /// A configured catalog is used as it is; otherwise the endpoint of the provider
    /// is asked, its models are the only ones, and they are cached.
    pub fn models_manager(&self, config_model_catalog: Option<Vec<ModelInfo>>) -> (source:
        ModelsSource)
        ensures
            match config_model_catalog {
                Some(catalog) => source is Static && source->Static_0 == catalog,
                None => {
                    &&& source is Remote
                    &&& source->endpoint.provider_info@ == self.info@
                    &&& source->base_catalog@.len() == 0
                    &&& source->cache_file@ == NVIDIA_NIM_MODELS_CACHE_FILE@
                    &&& source->use_remote_models_only
                },
            },
    {
        match config_model_catalog {
            Some(catalog) => ModelsSource::Static(catalog),
            None => ModelsSource::Remote {
                endpoint: self.models_endpoint(),
                base_catalog: Vec::new(),
                cache_file: NVIDIA_NIM_MODELS_CACHE_FILE,
                use_remote_models_only: true,
            },
        }
    }
}

/// What came of asking for the model list.
#[derive(Debug)]
pub enum ModelsFetch {
    /// Nothing in time.
    TimedOut,
    /// A failure, with its error.
    Failed(CodexErr),
    /// A response: its headers, and its body read as a catalog and as a list.
    Response {
        headers: http::HeaderMap,
        catalog: Option<Vec<ModelInfo>>,
        listing: Result<Vec<OpenAiModel>, String>,
    },
}

/// The endpoint that lists the models.
#[derive(Debug, PartialEq)]
pub struct NvidiaNimModelsEndpoint {
    pub provider_info: ModelProviderInfo,
}

impl NvidiaNimModelsEndpoint {
    pub fn new(provider_info: ModelProviderInfo) -> (endpoint: NvidiaNimModelsEndpoint)
        ensures
            endpoint.provider_info == provider_info,
    {
        NvidiaNimModelsEndpoint { provider_info }
    }

    pub fn has_command_auth(&self) -> (r: bool)
        ensures
            r == self.provider_info.command_auth,
    {
        self.provider_info.command_auth
    }

    pub fn supports_remote_model_catalog(&self) -> (r: bool)
        ensures
            r,
    {
        true
    }

    pub fn uses_codex_backend(&self) -> (r: bool)
        ensures
            !r,
    {
        false
    }

    /// The call that asks for the model list.
    pub fn models_call(&self) -> (call: ApiRequest)
        ensures
            call.method@ == "GET"@,
            call.path@ == "models"@,
            call.accept is None,
            call.body is None,
    {
        ApiRequest { method: "GET", path: "models", accept: None, body: None }
    }

    /// The models and the entity tag of the list, or why there are none.
    pub fn list_models(&self, fetch: ModelsFetch, base_instructions: &str) -> (listed: Result<
        (Vec<ModelInfo>, Option<String>),
        CodexErr,
    >)
        ensures
            match fetch {
                ModelsFetch::TimedOut => listed is Err && listed->Err_0@ == CodexErrView::Timeout,
                ModelsFetch::Failed(error) => listed is Err && listed->Err_0@ == error@,
                ModelsFetch::Response { headers, catalog, listing } => match (catalog, listing) {
                    (Some(given), _) => {
                        &&& listed is Ok
                        &&& listed->Ok_0.0@ == given@
                        &&& opt_view(listed->Ok_0.1) == etag_text(header_fields(headers))
                    },
                    (None, Ok(data)) => {
                        &&& listed is Ok
                        &&& views(listed->Ok_0.0@) == listed_catalog(
                            views(data@),
                            base_instructions@,
                        )
                        &&& opt_view(listed->Ok_0.1) == etag_text(header_fields(headers))
                    },
                    (None, Err(message)) => {
                        &&& listed is Err
                        &&& listed->Err_0@ == CodexErrView::Json(message@)
                    },
                },
            },
    {
        match fetch {
            ModelsFetch::TimedOut => Err(CodexErr::Timeout),
            ModelsFetch::Failed(error) => Err(error),
            ModelsFetch::Response { headers, catalog, listing } => {
                let etag = response_etag(&headers);
                match parse_nvidia_nim_models(catalog, listing, base_instructions) {
                    Ok(models) => Ok((models, etag)),
                    Err(error) => Err(error),
                }
            },
        }
    }
}

} // verus!
