use http::{HeaderMap, HeaderValue};
use nvidia_nim::models::{
    nvidia_nim_model_info, parse_nvidia_nim_models, ConfigShellToolType, InputModality, ModelInfo,
    ModelVisibility, OpenAiModel, TruncationMode, TruncationPolicyConfig,
};
use nvidia_nim::protocol::CodexErr;
use nvidia_nim::provider::{
    ModelProviderInfo, ModelsFetch, ModelsSource, NvidiaNimModelProvider,
    NvidiaNimModelsEndpoint, ProviderAccount, ProviderCapabilities, MODELS_REFRESH_TIMEOUT_SECS,
};
use serde_json::Value;

fn listing(body: &[u8]) -> Vec<OpenAiModel> {
    let value: Value = serde_json::from_slice(body).unwrap();
    value["data"]
        .as_array()
        .unwrap()
        .iter()
        .map(|entry| OpenAiModel {
            id: entry["id"].as_str().unwrap().to_string(),
            owned_by: entry["owned_by"].as_str().map(|owner| owner.to_string()),
        })
        .collect()
}

fn listed(ids: &[&str]) -> Vec<ModelInfo> {
    let data = ids
        .iter()
        .map(|id| OpenAiModel { id: id.to_string(), owned_by: None })
        .collect();
    parse_nvidia_nim_models(None, Ok(data), "base").unwrap()
}

fn slugs(models: &[ModelInfo]) -> Vec<&str> {
    models.iter().map(|model| model.slug.as_str()).collect()
}

fn provider(env_key: Option<&str>) -> NvidiaNimModelProvider<String> {
    let info = ModelProviderInfo {
        base_url: None,
        env_key: env_key.map(|key| key.to_string()),
        command_auth: false,
    };
    NvidiaNimModelProvider::new(info, None)
}

fn endpoint(command_auth: bool) -> NvidiaNimModelsEndpoint {
    NvidiaNimModelsEndpoint::new(ModelProviderInfo {
        base_url: None,
        env_key: None,
        command_auth,
    })
}

fn response(headers: HeaderMap) -> ModelsFetch {
    ModelsFetch::Response {
        headers,
        catalog: None,
        listing: Ok(vec![OpenAiModel { id: "m".to_string(), owned_by: None }]),
    }
}

#[test]
fn parses_standard_openai_models_response() {
    let body = br#"{
            "object": "list",
            "data": [
                {"id": "nvidia/llama-3.3-nemotron-super-49b-v1.5", "object": "model", "owned_by": "nvidia"},
                {"id": "openai/gpt-oss-120b", "object": "model", "owned_by": "openai"},
                {"id": "openai/gpt-oss-120b", "object": "model", "owned_by": "openai"}
            ]
        }"#;

    let models =
        parse_nvidia_nim_models(None, Ok(listing(body)), "base").expect("models should parse");

    assert_eq!(models.len(), 2);
    assert_eq!(models[0].slug, "nvidia/llama-3.3-nemotron-super-49b-v1.5");
    assert_eq!(models[0].visibility, ModelVisibility::List);
    assert_eq!(models[0].shell_type, ConfigShellToolType::ShellCommand);
    assert!(!models[0].supports_parallel_tool_calls);
    assert_eq!(models[1].slug, "openai/gpt-oss-120b");
}

#[test]
fn provider_capabilities_disable_openai_hosted_features() {
    let provider = NvidiaNimModelProvider::new(
        ModelProviderInfo::create_nvidia_nim_provider(None),
        /*auth_manager*/ None::<String>,
    );

    assert_eq!(
        provider.capabilities(),
        ProviderCapabilities {
            namespace_tools: false,
            image_generation: false,
            web_search: false,
        }
    );
}

#[test]
fn fetched_list_becomes_the_catalog() {
    let body = br#"{"object": "list", "data": [
        {"id": "nvidia/nemotron-3-nano-30b-a3b", "object": "model", "owned_by": "nvidia"}
    ]}"#;
    let call = endpoint(false).models_call();
    assert_eq!((call.method, call.path, call.accept, call.body), ("GET", "models", None, None));
    let fetch = ModelsFetch::Response {
        headers: HeaderMap::new(),
        catalog: None,
        listing: Ok(listing(body)),
    };
    let (models, etag) = endpoint(false).list_models(fetch, "base").unwrap();
    assert_eq!(slugs(&models), vec!["nvidia/nemotron-3-nano-30b-a3b"]);
    assert_eq!(etag, None);
}

#[test]
fn provider_points_at_the_hosted_endpoint_unless_told_otherwise() {
    let hosted = ModelProviderInfo::create_nvidia_nim_provider(None);
    assert_eq!(hosted.base_url.as_deref(), Some("https://integrate.api.nvidia.com/v1"));
    assert_eq!(hosted.env_key.as_deref(), Some("NVIDIA_API_KEY"));
    assert!(!hosted.command_auth);
    let own = ModelProviderInfo::create_nvidia_nim_provider(Some("https://nim/v1".to_string()));
    assert_eq!(own.base_url.as_deref(), Some("https://nim/v1"));
}

#[test]
fn listed_models_are_described_by_their_owner() {
    let owned = nvidia_nim_model_info("m", Some(" z-ai"), 3, "Base.");
    assert_eq!(owned.description.as_deref(), Some("NVIDIA NIM model owned by  z-ai"));
    assert_eq!(owned.slug, "m");
    assert_eq!(owned.display_name, "m");
    assert_eq!(owned.priority, 3);
    assert_eq!(owned.context_window, Some(128000));
    assert_eq!(owned.max_context_window, Some(128000));
    assert_eq!(owned.effective_context_window_percent, 95);
    assert_eq!(
        owned.truncation_policy,
        TruncationPolicyConfig { mode: TruncationMode::Tokens, limit: 10000 }
    );
    assert_eq!(owned.input_modalities, vec![InputModality::Text]);
    assert_eq!(
        owned.base_instructions,
        "Base.\n\nPerformance note for local shell work: prefer fast search/index tools such as `rg`,\n`rg --files`, and `git ls-files` before broad recursive PowerShell scans. Narrow\nsearches to the current project or workspace path, and avoid scanning a drive root\nunless the user specifically asks for that scope."
    );
    let blank = nvidia_nim_model_info("m", Some(" "), 0, "");
    assert_eq!(blank.description.as_deref(), Some("NVIDIA NIM model"));
    let unowned = nvidia_nim_model_info("m", None, 0, "");
    assert_eq!(unowned.description.as_deref(), Some("NVIDIA NIM model"));
}

#[test]
fn models_are_listed_once_trimmed_and_in_order() {
    let models = listed(&[" b ", "", "a", "b", " \t", "a ", "c"]);
    assert_eq!(slugs(&models), vec!["b", "a", "c"]);
    let priorities: Vec<i32> = models.iter().map(|model| model.priority).collect();
    assert_eq!(priorities, vec![0, 1, 2]);
    assert_eq!(slugs(&listed(&slugs(&models))), slugs(&models));
    assert_eq!(listed(&[]).len(), 0);
}

#[test]
fn the_first_mention_names_the_owner() {
    let data = vec![
        OpenAiModel { id: "m".to_string(), owned_by: Some("first".to_string()) },
        OpenAiModel { id: " m".to_string(), owned_by: Some("second".to_string()) },
    ];
    let models = parse_nvidia_nim_models(None, Ok(data), "").unwrap();
    assert_eq!(models.len(), 1);
    assert_eq!(models[0].description.as_deref(), Some("NVIDIA NIM model owned by first"));
}

#[test]
fn a_catalog_is_taken_as_it_is() {
    let given = vec![nvidia_nim_model_info(" x ", None, 9, ""), nvidia_nim_model_info(" x ", None, 9, "")];
    let models = parse_nvidia_nim_models(Some(given), Err("no list".to_string()), "base").unwrap();
    assert_eq!(slugs(&models), vec![" x ", " x "]);
}

#[test]
fn a_body_that_reads_as_nothing_is_an_error() {
    let error = parse_nvidia_nim_models(None, Err("missing field".to_string()), "base");
    assert_eq!(error, Err(CodexErr::Json("missing field".to_string())));
}

#[test]
fn listing_reports_timeouts_and_failures() {
    assert_eq!(MODELS_REFRESH_TIMEOUT_SECS, 5);
    assert_eq!(
        endpoint(false).list_models(ModelsFetch::TimedOut, ""),
        Err(CodexErr::Timeout)
    );
    let failed = ModelsFetch::Failed(CodexErr::Transport("refused".to_string()));
    assert_eq!(
        endpoint(false).list_models(failed, ""),
        Err(CodexErr::Transport("refused".to_string()))
    );
}

#[test]
fn entity_tag_is_the_first_that_is_text() {
    let mut headers = HeaderMap::new();
    headers.append("ETag", HeaderValue::from_static("\"one\""));
    headers.append("etag", HeaderValue::from_static("\"two\""));
    headers.append("x-other", HeaderValue::from_static("three"));
    let (_, etag) = endpoint(false).list_models(response(headers), "").unwrap();
    assert_eq!(etag.as_deref(), Some("\"one\""));

    let mut opaque = HeaderMap::new();
    opaque.insert("etag", HeaderValue::from_bytes(b"\xffabc").unwrap());
    let (models, etag) = endpoint(false).list_models(response(opaque), "").unwrap();
    assert_eq!(slugs(&models), vec!["m"]);
    assert_eq!(etag, None);
}

#[test]
fn account_needs_a_variable_and_a_key() {
    let named = provider(Some("NVIDIA_API_KEY"));
    assert_eq!(named.info().env_key.as_deref(), Some("NVIDIA_API_KEY"));
    let state = named.account_state(Some("nvapi"));
    assert_eq!(state.account, Some(ProviderAccount::ApiKey));
    assert!(!state.requires_openai_auth);
    assert_eq!(named.account_state(Some(" \n")).account, None);
    assert_eq!(named.account_state(None).account, None);
    assert_eq!(provider(None).account_state(Some("nvapi")).account, None);
}

#[test]
fn the_login_of_the_caller_is_never_used() {
    let info = || ModelProviderInfo::create_nvidia_nim_provider(None);
    let lent = NvidiaNimModelProvider::new(info(), Some("login".to_string()));
    assert_eq!(lent.auth_lookup(), (None, &info()));
    assert_eq!(lent, NvidiaNimModelProvider::new(info(), None));
    assert_eq!(lent, NvidiaNimModelProvider::new(info(), Some("other".to_string())));
}

#[test]
fn configured_catalog_replaces_the_endpoint() {
    let catalog = listed(&["m"]);
    match provider(None).models_manager(Some(catalog)) {
        ModelsSource::Static(models) => assert_eq!(slugs(&models), vec!["m"]),
        other => panic!("{other:?}"),
    }
    assert_eq!(
        provider(None).models_manager(None),
        ModelsSource::Remote {
            endpoint: endpoint(false),
            base_catalog: vec![],
            cache_file: "nvidia_nim_models_cache.json",
            use_remote_models_only: true,
        }
    );
}

#[test]
fn the_endpoint_has_the_configuration_of_the_provider() {
    let info = || ModelProviderInfo {
        base_url: Some("https://nim/v1".to_string()),
        env_key: Some("KEY".to_string()),
        command_auth: true,
    };
    let provider = NvidiaNimModelProvider::new(info(), None::<String>);
    assert_eq!(provider.models_endpoint().provider_info, info());
    match provider.models_manager(None) {
        ModelsSource::Remote { endpoint, .. } => assert_eq!(endpoint.provider_info, info()),
        other => panic!("{other:?}"),
    }
}

#[test]
fn endpoint_lists_remote_models_without_a_backend() {
    assert!(endpoint(true).has_command_auth());
    assert!(!endpoint(false).has_command_auth());
    assert!(endpoint(false).supports_remote_model_catalog());
    assert!(!endpoint(false).uses_codex_backend());
}
