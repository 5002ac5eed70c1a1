//! The models that a NIM endpoint lists, as catalog entries.

use vstd::hash_set::StringHashSet;
use vstd::prelude::*;
use crate::protocol::{CodexErr, CodexErrView};
use crate::text::{blank, is_blank, opt_view, trimmed, views};

verus! {

/// The context window that is taken for granted of a model that lists none.
pub const NVIDIA_NIM_DEFAULT_CONTEXT_WINDOW: i64 = 128_000;

/// The number of tokens of tool output that is passed on to a model.
pub const NVIDIA_NIM_TOOL_OUTPUT_TOKEN_LIMIT: i64 = 10_000;

/// What the base instructions of every model end with.
pub const NVIDIA_NIM_BASE_INSTRUCTIONS_APPENDIX: &'static str = "

Performance note for local shell work: prefer fast search/index tools such as `rg`,
`rg --files`, and `git ls-files` before broad recursive PowerShell scans. Narrow
searches to the current project or workspace path, and avoid scanning a drive root
unless the user specifically asks for that scope.";

#[derive(Debug, Clone, Copy, PartialEq, Eq, Structural)]
pub enum ReasoningEffort {
    Minimal,
    Low,
    Medium,
    High,
}

#[derive(Debug, Clone, Copy, PartialEq, Eq, Structural)]
pub enum ReasoningSummary {
    Auto,
    Concise,
    Detailed,
    Disabled,
}

#[derive(Debug, Clone, Copy, PartialEq, Eq, Structural)]
pub enum Verbosity {
    Low,
    Medium,
    High,
}

#[derive(Debug, Clone, Copy, PartialEq, Eq, Structural)]
pub enum ConfigShellToolType {
    Default,
    Local,
    UnifiedExec,
    Disabled,
    ShellCommand,
}

#[derive(Debug, Clone, Copy, PartialEq, Eq, Structural)]
pub enum ModelVisibility {
    List,
    Hide,
    Unlisted,
}

#[derive(Debug, Clone, Copy, PartialEq, Eq, Structural)]
pub enum ApplyPatchToolType {
    Freeform,
    Function,
}

#[derive(Debug, Clone, Copy, PartialEq, Eq, Structural)]
pub enum WebSearchToolType {
    Text,
    TextAndImage,
}

#[derive(Debug, Clone, Copy, PartialEq, Eq, Structural)]
pub enum InputModality {
    Text,
    Image,
}

#[derive(Debug, Clone, Copy, PartialEq, Eq, Structural)]
pub enum TruncationMode {
    Bytes,
    Tokens,
}

#[derive(Debug, Clone, Copy, PartialEq, Eq, Structural)]
pub struct TruncationPolicyConfig {
    pub mode: TruncationMode,
    pub limit: i64,
}

impl TruncationPolicyConfig {
    /// Truncation to so many tokens.
    pub fn tokens(limit: i64) -> (policy: TruncationPolicyConfig)
        ensures
            policy == (TruncationPolicyConfig { mode: TruncationMode::Tokens, limit }),
    {
        TruncationPolicyConfig { mode: TruncationMode::Tokens, limit }
    }
}

/// A catalog entry: a model and what may be asked of it.
#[derive(Debug, PartialEq)]
pub struct ModelInfo {
    pub slug: String,
    pub display_name: String,
    pub description: Option<String>,
    pub default_reasoning_level: Option<ReasoningEffort>,
    pub supported_reasoning_levels: Vec<ReasoningEffort>,
    pub shell_type: ConfigShellToolType,
    pub visibility: ModelVisibility,
    pub supported_in_api: bool,
    pub priority: i32,
    pub additional_speed_tiers: Vec<String>,
    pub service_tiers: Vec<String>,
    pub availability_nux: Option<String>,
    pub upgrade: Option<String>,
    pub base_instructions: String,
    pub model_messages: Option<String>,
    pub supports_reasoning_summaries: bool,
    pub default_reasoning_summary: ReasoningSummary,
    pub support_verbosity: bool,
    pub default_verbosity: Option<Verbosity>,
    pub apply_patch_tool_type: Option<ApplyPatchToolType>,
    pub web_search_tool_type: WebSearchToolType,
    pub truncation_policy: TruncationPolicyConfig,
    pub supports_parallel_tool_calls: bool,
    pub supports_image_detail_original: bool,
    pub context_window: Option<i64>,
    pub max_context_window: Option<i64>,
    pub auto_compact_token_limit: Option<i64>,
    pub effective_context_window_percent: i64,
    pub experimental_supported_tools: Vec<String>,
    pub input_modalities: Vec<InputModality>,
    pub used_fallback_model_metadata: bool,
    pub supports_search_tool: bool,
}

pub struct ModelInfoView {
    pub slug: Seq<char>,
    pub display_name: Seq<char>,
    pub description: Option<Seq<char>>,
    pub default_reasoning_level: Option<ReasoningEffort>,
    pub supported_reasoning_levels: Seq<ReasoningEffort>,
    pub shell_type: ConfigShellToolType,
    pub visibility: ModelVisibility,
    pub supported_in_api: bool,
    pub priority: i32,
    pub additional_speed_tiers: Seq<Seq<char>>,
    pub service_tiers: Seq<Seq<char>>,
    pub availability_nux: Option<Seq<char>>,
    pub upgrade: Option<Seq<char>>,
    pub base_instructions: Seq<char>,
    pub model_messages: Option<Seq<char>>,
    pub supports_reasoning_summaries: bool,
    pub default_reasoning_summary: ReasoningSummary,
    pub support_verbosity: bool,
    pub default_verbosity: Option<Verbosity>,
    pub apply_patch_tool_type: Option<ApplyPatchToolType>,
    pub web_search_tool_type: WebSearchToolType,
    pub truncation_policy: TruncationPolicyConfig,
    pub supports_parallel_tool_calls: bool,
    pub supports_image_detail_original: bool,
    pub context_window: Option<i64>,
    pub max_context_window: Option<i64>,
    pub auto_compact_token_limit: Option<i64>,
    pub effective_context_window_percent: i64,
    pub experimental_supported_tools: Seq<Seq<char>>,
    pub input_modalities: Seq<InputModality>,
    pub used_fallback_model_metadata: bool,
    pub supports_search_tool: bool,
}

impl View for ModelInfo {
    type V = ModelInfoView;

    open spec fn view(&self) -> ModelInfoView {
        ModelInfoView {
            slug: self.slug@,
            display_name: self.display_name@,
            description: opt_view(self.description),
            default_reasoning_level: self.default_reasoning_level,
            supported_reasoning_levels: self.supported_reasoning_levels@,
            shell_type: self.shell_type,
            visibility: self.visibility,
            supported_in_api: self.supported_in_api,
            priority: self.priority,
            additional_speed_tiers: views(self.additional_speed_tiers@),
            service_tiers: views(self.service_tiers@),
            availability_nux: opt_view(self.availability_nux),
            upgrade: opt_view(self.upgrade),
            base_instructions: self.base_instructions@,
            model_messages: opt_view(self.model_messages),
            supports_reasoning_summaries: self.supports_reasoning_summaries,
            default_reasoning_summary: self.default_reasoning_summary,
            support_verbosity: self.support_verbosity,
            default_verbosity: self.default_verbosity,
            apply_patch_tool_type: self.apply_patch_tool_type,
            web_search_tool_type: self.web_search_tool_type,
            truncation_policy: self.truncation_policy,
            supports_parallel_tool_calls: self.supports_parallel_tool_calls,
            supports_image_detail_original: self.supports_image_detail_original,
            context_window: self.context_window,
            max_context_window: self.max_context_window,
            auto_compact_token_limit: self.auto_compact_token_limit,
            effective_context_window_percent: self.effective_context_window_percent,
            experimental_supported_tools: views(self.experimental_supported_tools@),
            input_modalities: self.input_modalities@,
            used_fallback_model_metadata: self.used_fallback_model_metadata,
            supports_search_tool: self.supports_search_tool,
        }
    }
}

/// One entry of the list that an OpenAI-compatible endpoint gives.
#[derive(Debug, PartialEq)]
pub struct OpenAiModel {
    pub id: String,
    pub owned_by: Option<String>,
}

pub struct OpenAiModelView {
    pub id: Seq<char>,
    pub owned_by: Option<Seq<char>>,
}

impl View for OpenAiModel {
    type V = OpenAiModelView;

    open spec fn view(&self) -> OpenAiModelView {
        OpenAiModelView { id: self.id@, owned_by: opt_view(self.owned_by) }
    }
}

/// How a model is described: by its owner, where it has one that is not blank.
pub open spec fn model_description(owned_by: Option<Seq<char>>) -> Seq<char> {
    match owned_by {
        Some(owner) if !blank(owner) => "NVIDIA NIM model owned by "@ + owner,
        _ => "NVIDIA NIM model"@,
    }
}

/// The catalog entry of a listed model: text in, text out, no reasoning controls,
/// no parallel tool calls and no hosted tools.
pub open spec fn listed_model(
    slug: Seq<char>,
    owned_by: Option<Seq<char>>,
    priority: i32,
    base_instructions: Seq<char>,
) -> ModelInfoView {
    ModelInfoView {
        slug,
        display_name: slug,
        description: Some(model_description(owned_by)),
        default_reasoning_level: None,
        supported_reasoning_levels: Seq::empty(),
        shell_type: ConfigShellToolType::ShellCommand,
        visibility: ModelVisibility::List,
        supported_in_api: true,
        priority,
        additional_speed_tiers: Seq::empty(),
        service_tiers: Seq::empty(),
        availability_nux: None,
        upgrade: None,
        base_instructions: base_instructions + NVIDIA_NIM_BASE_INSTRUCTIONS_APPENDIX@,
        model_messages: None,
        supports_reasoning_summaries: false,
        default_reasoning_summary: ReasoningSummary::Auto,
        support_verbosity: false,
        default_verbosity: None,
        apply_patch_tool_type: None,
        web_search_tool_type: WebSearchToolType::Text,
        truncation_policy: TruncationPolicyConfig {
            mode: TruncationMode::Tokens,
            limit: NVIDIA_NIM_TOOL_OUTPUT_TOKEN_LIMIT,
        },
        supports_parallel_tool_calls: false,
        supports_image_detail_original: false,
        context_window: Some(NVIDIA_NIM_DEFAULT_CONTEXT_WINDOW),
        max_context_window: Some(NVIDIA_NIM_DEFAULT_CONTEXT_WINDOW),
        auto_compact_token_limit: None,
        effective_context_window_percent: 95,
        experimental_supported_tools: Seq::empty(),
        input_modalities: seq![InputModality::Text],
        used_fallback_model_metadata: false,
        supports_search_tool: false,
    }
}

/// The catalog entry of a listed model.
pub fn nvidia_nim_model_info(
    slug: &str,
    owned_by: Option<&str>,
    priority: i32,
    base_instructions: &str,
) -> (model: ModelInfo)
    ensures
        model@ == listed_model(slug@, opt_view(owned_by), priority, base_instructions@),
{
    let description = match owned_by {
        Some(owner) => if is_blank(owner) {
            "NVIDIA NIM model".to_string()
        } else {
            "NVIDIA NIM model owned by ".to_string().concat(owner)
        },
        None => "NVIDIA NIM model".to_string(),
    };
    let mut input_modalities: Vec<InputModality> = Vec::new();
    input_modalities.push(InputModality::Text);
    let model = ModelInfo {
        slug: slug.to_string(),
        display_name: slug.to_string(),
        description: Some(description),
        default_reasoning_level: None,
        supported_reasoning_levels: Vec::new(),
        shell_type: ConfigShellToolType::ShellCommand,
        visibility: ModelVisibility::List,
        supported_in_api: true,
        priority,
        additional_speed_tiers: Vec::new(),
        service_tiers: Vec::new(),
        availability_nux: None,
        upgrade: None,
        base_instructions: base_instructions.to_string().concat(
            NVIDIA_NIM_BASE_INSTRUCTIONS_APPENDIX,
        ),
        model_messages: None,
        supports_reasoning_summaries: false,
        default_reasoning_summary: ReasoningSummary::Auto,
        support_verbosity: false,
        default_verbosity: None,
        apply_patch_tool_type: None,
        web_search_tool_type: WebSearchToolType::Text,
        truncation_policy: TruncationPolicyConfig::tokens(NVIDIA_NIM_TOOL_OUTPUT_TOKEN_LIMIT),
        supports_parallel_tool_calls: false,
        supports_image_detail_original: false,
        context_window: Some(NVIDIA_NIM_DEFAULT_CONTEXT_WINDOW),
        max_context_window: Some(NVIDIA_NIM_DEFAULT_CONTEXT_WINDOW),
        auto_compact_token_limit: None,
        effective_context_window_percent: 95,
        experimental_supported_tools: Vec::new(),
        input_modalities,
        used_fallback_model_metadata: false,
        supports_search_tool: false,
    };
    proof {
        assert(model@.additional_speed_tiers =~= Seq::empty());
        assert(model@.service_tiers =~= Seq::empty());
        assert(model@.experimental_supported_tools =~= Seq::empty());
        assert(model@.input_modalities =~= seq![InputModality::Text]);
    }
    model
}

/// Whether entry `i` of a list names a model that no entry before it names. Names
/// are compared without the white space around them, and a blank one names none.
pub open spec fn names_new_model(listing: Seq<OpenAiModelView>, i: int) -> bool {
    &&& trimmed(listing[i].id).len() > 0
    &&& forall|j: int| 0 <= j < i ==> trimmed(#[trigger] listing[j].id) != trimmed(listing[i].id)
}

/// The priority of the entry at a position of the catalog.
pub open spec fn priority_at(position: nat) -> i32 {
    if position <= i32::MAX {
        position as i32
    } else {
        i32::MAX
    }
}

/// The catalog of the first `n` entries of a list: each model once, in the order
/// of first mention, with its position as its priority.
pub open spec fn listed_models(
    listing: Seq<OpenAiModelView>,
    n: nat,
    base_instructions: Seq<char>,
) -> Seq<ModelInfoView>
    decreases n,
{
    if n == 0 {
        Seq::empty()
    } else {
        let before = listed_models(listing, (n - 1) as nat, base_instructions);
        let entry = listing[n - 1];
        if names_new_model(listing, n - 1) {
            before.push(
                listed_model(
                    trimmed(entry.id),
                    entry.owned_by,
                    priority_at(before.len()),
                    base_instructions,
                ),
            )
        } else {
            before
        }
    }
}

/// The catalog of a whole list.
pub open spec fn listed_catalog(
    listing: Seq<OpenAiModelView>,
    base_instructions: Seq<char>,
) -> Seq<ModelInfoView> {
    listed_models(listing, listing.len(), base_instructions)
}

/// The catalog of a list of models.
fn catalog_of_listing(data: Vec<OpenAiModel>, base_instructions: &str) -> (models: Vec<ModelInfo>)
    ensures
        views(models@) == listed_catalog(views(data@), base_instructions@),
{
    let ghost listing = views(data@);
    let mut seen = StringHashSet::new();
    let mut models: Vec<ModelInfo> = Vec::new();
    assert(views(models@) =~= Seq::empty());
    let mut at: usize = 0;
    while at < data.len()
        invariant
            at <= data.len(),
            listing == views(data@),
            forall|name: Seq<char>| #[trigger]
                seen@.contains(name) <==> name.len() > 0 && exists|j: int|
                    0 <= j < at && trimmed(#[trigger] listing[j].id) == name,
            views(models@) == listed_models(listing, at as nat, base_instructions@),
        decreases data.len() - at,
    {
        let model = &data[at];
        let ghost before = seen@;
        let ghost so_far = models@;
        assert(model@ == listing[at as int]);
        let id = model.id.as_str().trim();
        if !id.is_empty() && seen.insert(id.to_string()) {
            let priority = match i32::try_from(models.len()) {
                Ok(fitting) => fitting,
                Err(_) => i32::MAX,
            };
            let owned_by = match &model.owned_by {
                Some(owner) => Some(owner.as_str()),
                None => None,
            };
            models.push(nvidia_nim_model_info(id, owned_by, priority, base_instructions));
            assert(views(models@) =~= views(so_far).push(models@.last()@));
        }
        proof {
            assert forall|name: Seq<char>| #[trigger] seen@.contains(name) <==> name.len() > 0
                && exists|j: int|
                0 <= j < at + 1 && trimmed(#[trigger] listing[j].id) == name by {
                if name == id@ && name.len() > 0 {
                    assert(trimmed(listing[at as int].id) == name);
                }
                if before.contains(name) {
                    let j = choose|j: int|
                        0 <= j < at && trimmed(#[trigger] listing[j].id) == name;
                    assert(trimmed(listing[j].id) == name);
                }
            }
        }
        at = at + 1;
    }
    models
}

/// The models of the body of a model list. `catalog` is what the body holds where
/// it reads as a catalog, and is then taken as it is. Otherwise `listing` is what
/// reading it as the list of an OpenAI-compatible endpoint gave: its entries, or
/// why it could not be read.
pub fn parse_nvidia_nim_models(
    catalog: Option<Vec<ModelInfo>>,
    listing: Result<Vec<OpenAiModel>, String>,
    base_instructions: &str,
) -> (models: Result<Vec<ModelInfo>, CodexErr>)
    ensures
        match (catalog, listing) {
            (Some(given), _) => models is Ok && models->Ok_0@ == given@,
            (None, Ok(data)) => models is Ok && views(models->Ok_0@) == listed_catalog(
                views(data@),
                base_instructions@,
            ),
            (None, Err(message)) => models is Err && models->Err_0@ == CodexErrView::Json(message@),
        },
{
    if let Some(given) = catalog {
        return Ok(given);
    }
    match listing {
        Ok(data) => Ok(catalog_of_listing(data, base_instructions)),
        Err(message) => Err(CodexErr::Json(message)),
    }
}

} // verus!
