//! The OpenRouter `/models` catalog: raw catalog entries mapped onto model
//! metadata and kept by model id for resolution.

use vstd::prelude::*;
use crate::text::{
    ascii_lowercase, is_blank, is_blank_str, lowercase_equals, opt_string_view, strings_view,
};

verus! {

/// Path of the catalog endpoint under the OpenRouter base URL.
pub const MODELS_PATH: &'static str = "/models";

/// The URL of the model catalog under `base_url`.
pub fn catalog_url(base_url: &str) -> (r: String)
    ensures
        r@ == base_url@ + MODELS_PATH@,
{
    String::from_str(base_url).concat(MODELS_PATH)
}

/// An input kind that a model accepts.
#[derive(Debug, Clone, Copy, PartialEq, Eq, Structural)]
pub enum InputModality {
    Text,
    Image,
}

/// The `architecture` object of a catalog entry.
#[derive(Debug, Clone, Default)]
pub struct OpenRouterArchitecture {
    pub input_modalities: Vec<String>,
}

/// One raw entry of the OpenRouter `/models` catalog.
#[derive(Debug, Clone)]
pub struct OpenRouterModelEntry {
    pub id: String,
    pub name: Option<String>,
    pub description: Option<String>,
    pub context_length: Option<i64>,
    pub architecture: OpenRouterArchitecture,
}

/// A catalog entry as plain values.
pub struct EntryView {
    pub id: Seq<char>,
    pub name: Option<Seq<char>>,
    pub description: Option<Seq<char>>,
    pub context_length: Option<i64>,
    pub input_modalities: Seq<Seq<char>>,
}

impl View for OpenRouterModelEntry {
    type V = EntryView;

    open spec fn view(&self) -> EntryView {
        EntryView {
            id: self.id@,
            name: opt_string_view(self.name),
            description: opt_string_view(self.description),
            context_length: self.context_length,
            input_modalities: strings_view(self.architecture.input_modalities@),
        }
    }
}

/// How the shell tool is offered to a model.
#[derive(Debug, Clone, Copy, PartialEq, Eq, Structural)]
pub enum ConfigShellToolType {
    Default,
    Local,
    UnifiedExec,
    Disabled,
    ShellCommand,
}

/// Where a model is listed in the model picker.
#[derive(Debug, Clone, Copy, PartialEq, Eq, Structural)]
pub enum ModelVisibility {
    List,
    Hide,
    /// Not shown in the picker at all.
    Unlisted,
}

/// The kind of web search tool offered to a model.
#[derive(Debug, Clone, Copy, PartialEq, Eq, Structural)]
pub enum WebSearchToolType {
    Text,
    TextAndImage,
}

/// How reasoning is summarised.
#[derive(Debug, Clone, Copy, PartialEq, Eq, Structural)]
pub enum ReasoningSummary {
    Auto,
    Concise,
    Detailed,
    /// No summary.
    Off,
}

/// A reasoning effort level.
#[derive(Debug, Clone, Copy, PartialEq, Eq, Structural)]
pub enum ReasoningEffort {
    /// No reasoning.
    Off,
    Minimal,
    Low,
    Medium,
    High,
    XHigh,
}

/// A verbosity level.
#[derive(Debug, Clone, Copy, PartialEq, Eq, Structural)]
pub enum Verbosity {
    Low,
    Medium,
    High,
}

/// How the apply-patch tool is offered.
#[derive(Debug, Clone, Copy, PartialEq, Eq, Structural)]
pub enum ApplyPatchToolType {
    Freeform,
    Function,
}

/// What a truncation limit counts.
#[derive(Debug, Clone, Copy, PartialEq, Eq, Structural)]
pub enum TruncationMode {
    Bytes,
    Tokens,
}

/// When tool output is truncated.
#[derive(Debug, Clone, Copy, PartialEq, Eq, Structural)]
pub struct TruncationPolicyConfig {
    pub mode: TruncationMode,
    pub limit: i64,
}

impl TruncationPolicyConfig {
    /// Truncate after `limit` bytes.
    pub fn bytes(limit: i64) -> (r: Self)
        ensures
            r == (TruncationPolicyConfig { mode: TruncationMode::Bytes, limit }),
    {
        TruncationPolicyConfig { mode: TruncationMode::Bytes, limit }
    }
}

/// Model metadata as the session uses it to talk to a routed model.
///
/// Service tiers, availability notices, upgrades, model messages, review
/// overrides, tool modes and multi-agent versions are kept by their names.
#[derive(Debug, Clone)]
pub struct ModelInfo {
    pub slug: String,
    pub display_name: String,
    pub description: Option<String>,
    pub default_reasoning_level: Option<ReasoningEffort>,
    pub supported_reasoning_levels: Vec<ReasoningEffort>,
    pub shell_type: ConfigShellToolType,
    pub visibility: ModelVisibility,
    pub supported_in_api: bool,
    pub priority: i32,
    pub additional_speed_tiers: Vec<String>,
    pub service_tiers: Vec<String>,
    pub default_service_tier: Option<String>,
    pub availability_nux: Option<String>,
    pub upgrade: Option<String>,
    pub base_instructions: String,
    pub model_messages: Option<String>,
    pub supports_reasoning_summaries: bool,
    pub default_reasoning_summary: ReasoningSummary,
    pub support_verbosity: bool,
    pub default_verbosity: Option<Verbosity>,
    pub apply_patch_tool_type: Option<ApplyPatchToolType>,
    pub web_search_tool_type: WebSearchToolType,
    pub truncation_policy: TruncationPolicyConfig,
    pub supports_parallel_tool_calls: bool,
    pub supports_image_detail_original: bool,
    pub context_window: Option<i64>,
    pub max_context_window: Option<i64>,
    pub auto_compact_token_limit: Option<i64>,
    pub effective_context_window_percent: i64,
    pub experimental_supported_tools: Vec<String>,
    pub input_modalities: Vec<InputModality>,
    pub used_fallback_model_metadata: bool,
    pub supports_search_tool: bool,
    pub use_responses_lite: bool,
    pub auto_review_model_override: Option<String>,
    pub tool_mode: Option<String>,
    pub multi_agent_version: Option<String>,
}

/// Model metadata as plain values.
pub struct ModelInfoView {
    pub slug: Seq<char>,
    pub display_name: Seq<char>,
    pub description: Option<Seq<char>>,
    pub default_reasoning_level: Option<ReasoningEffort>,
    pub supported_reasoning_levels: Seq<ReasoningEffort>,
    pub shell_type: ConfigShellToolType,
    pub visibility: ModelVisibility,
    pub supported_in_api: bool,
    pub priority: i32,
    pub additional_speed_tiers: Seq<Seq<char>>,
    pub service_tiers: Seq<Seq<char>>,
    pub default_service_tier: Option<Seq<char>>,
    pub availability_nux: Option<Seq<char>>,
    pub upgrade: Option<Seq<char>>,
    pub base_instructions: Seq<char>,
    pub model_messages: Option<Seq<char>>,
    pub supports_reasoning_summaries: bool,
    pub default_reasoning_summary: ReasoningSummary,
    pub support_verbosity: bool,
    pub default_verbosity: Option<Verbosity>,
    pub apply_patch_tool_type: Option<ApplyPatchToolType>,
    pub web_search_tool_type: WebSearchToolType,
    pub truncation_policy: TruncationPolicyConfig,
    pub supports_parallel_tool_calls: bool,
    pub supports_image_detail_original: bool,
    pub context_window: Option<i64>,
    pub max_context_window: Option<i64>,
    pub auto_compact_token_limit: Option<i64>,
    pub effective_context_window_percent: i64,
    pub experimental_supported_tools: Seq<Seq<char>>,
    pub input_modalities: Seq<InputModality>,
    pub used_fallback_model_metadata: bool,
    pub supports_search_tool: bool,
    pub use_responses_lite: bool,
    pub auto_review_model_override: Option<Seq<char>>,
    pub tool_mode: Option<Seq<char>>,
    pub multi_agent_version: Option<Seq<char>>,
}

impl View for ModelInfo {
    type V = ModelInfoView;

    open spec fn view(&self) -> ModelInfoView {
        ModelInfoView {
            slug: self.slug@,
            display_name: self.display_name@,
            description: opt_string_view(self.description),
            default_reasoning_level: self.default_reasoning_level,
            supported_reasoning_levels: self.supported_reasoning_levels@,
            shell_type: self.shell_type,
            visibility: self.visibility,
            supported_in_api: self.supported_in_api,
            priority: self.priority,
            additional_speed_tiers: strings_view(self.additional_speed_tiers@),
            service_tiers: strings_view(self.service_tiers@),
            default_service_tier: opt_string_view(self.default_service_tier),
            availability_nux: opt_string_view(self.availability_nux),
            upgrade: opt_string_view(self.upgrade),
            base_instructions: self.base_instructions@,
            model_messages: opt_string_view(self.model_messages),
            supports_reasoning_summaries: self.supports_reasoning_summaries,
            default_reasoning_summary: self.default_reasoning_summary,
            support_verbosity: self.support_verbosity,
            default_verbosity: self.default_verbosity,
            apply_patch_tool_type: self.apply_patch_tool_type,
            web_search_tool_type: self.web_search_tool_type,
            truncation_policy: self.truncation_policy,
            supports_parallel_tool_calls: self.supports_parallel_tool_calls,
            supports_image_detail_original: self.supports_image_detail_original,
            context_window: self.context_window,
            max_context_window: self.max_context_window,
            auto_compact_token_limit: self.auto_compact_token_limit,
            effective_context_window_percent: self.effective_context_window_percent,
            experimental_supported_tools: strings_view(self.experimental_supported_tools@),
            input_modalities: self.input_modalities@,
            used_fallback_model_metadata: self.used_fallback_model_metadata,
            supports_search_tool: self.supports_search_tool,
            use_responses_lite: self.use_responses_lite,
            auto_review_model_override: opt_string_view(self.auto_review_model_override),
            tool_mode: opt_string_view(self.tool_mode),
            multi_agent_version: opt_string_view(self.multi_agent_version),
        }
    }
}

/// The modalities recognised in `raw`, in order of first appearance: `text`
/// and `image` in any ASCII case, each once; anything else is skipped.
pub open spec fn recognised_modalities(raw: Seq<Seq<char>>) -> Seq<InputModality>
    decreases raw.len(),
{
    if raw.len() == 0 {
        Seq::empty()
    } else {
        let out = recognised_modalities(raw.drop_last());
        let value = ascii_lowercase(raw.last());
        if value == "text"@ && !out.contains(InputModality::Text) {
            out.push(InputModality::Text)
        } else if value == "image"@ && !out.contains(InputModality::Image) {
            out.push(InputModality::Image)
        } else {
            out
        }
    }
}

/// The input modalities of a catalog entry: those recognised, or text alone
/// when none is.
pub open spec fn modalities_of(raw: Seq<Seq<char>>) -> Seq<InputModality> {
    let out = recognised_modalities(raw);
    if out.len() == 0 {
        seq![InputModality::Text]
    } else {
        out
    }
}

/// The display name of an entry: its name unless missing or blank, else its id.
pub open spec fn display_name_of(e: EntryView) -> Seq<char> {
    match e.name {
        Some(n) => if is_blank(n) {
            e.id
        } else {
            n
        },
        None => e.id,
    }
}

/// The description of an entry, with a blank one collapsed to none.
pub open spec fn description_of(e: EntryView) -> Option<Seq<char>> {
    match e.description {
        Some(d) => if is_blank(d) {
            None
        } else {
            Some(d)
        },
        None => None,
    }
}

/// The metadata for a catalog entry: names, description, context window and
/// modalities from the catalog, `base_instructions` as the instructions, and
/// conservative defaults for the rest, so that a tool-capable routed model
/// behaves like a standard chat model.
pub open spec fn model_info_of(e: EntryView, base_instructions: Seq<char>) -> ModelInfoView {
    ModelInfoView {
        slug: e.id,
        display_name: display_name_of(e),
        description: description_of(e),
        default_reasoning_level: None,
        supported_reasoning_levels: Seq::empty(),
        shell_type: ConfigShellToolType::Default,
        visibility: ModelVisibility::Unlisted,
        supported_in_api: true,
        priority: 0,
        additional_speed_tiers: Seq::empty(),
        service_tiers: Seq::empty(),
        default_service_tier: None,
        availability_nux: None,
        upgrade: None,
        base_instructions: base_instructions,
        model_messages: None,
        supports_reasoning_summaries: false,
        default_reasoning_summary: ReasoningSummary::Auto,
        support_verbosity: false,
        default_verbosity: None,
        apply_patch_tool_type: None,
        web_search_tool_type: WebSearchToolType::Text,
        truncation_policy: TruncationPolicyConfig { mode: TruncationMode::Bytes, limit: 10_000 },
        supports_parallel_tool_calls: false,
        supports_image_detail_original: false,
        context_window: e.context_length,
        max_context_window: e.context_length,
        auto_compact_token_limit: None,
        effective_context_window_percent: 95,
        experimental_supported_tools: Seq::empty(),
        input_modalities: modalities_of(e.input_modalities),
        used_fallback_model_metadata: false,
        supports_search_tool: false,
        use_responses_lite: false,
        auto_review_model_override: None,
        tool_mode: None,
        multi_agent_version: None,
    }
}

/// The catalog that a list of entries makes: each entry with a non-empty id
/// keyed by that id, a later entry replacing an earlier one with the same id.
pub open spec fn catalog_of(entries: Seq<EntryView>, base_instructions: Seq<char>) -> Map<
    Seq<char>,
    ModelInfoView,
>
    decreases entries.len(),
{
    if entries.len() == 0 {
        Map::empty()
    } else {
        let m = catalog_of(entries.drop_last(), base_instructions);
        let e = entries.last();
        if e.id.len() == 0 {
            m
        } else {
            m.insert(e.id, model_info_of(e, base_instructions))
        }
    }
}

/// The entries of `v` as plain values.
pub open spec fn entries_view(v: Seq<OpenRouterModelEntry>) -> Seq<EntryView> {
    v.map_values(|e: OpenRouterModelEntry| e@)
}

/// The metadata of `v` as plain values.
pub open spec fn infos_view(v: Seq<ModelInfo>) -> Seq<ModelInfoView> {
    v.map_values(|m: ModelInfo| m@)
}

/// Metadata keyed by slug.
pub open spec fn infos_map(s: Seq<ModelInfoView>) -> Map<Seq<char>, ModelInfoView>
    decreases s.len(),
{
    if s.len() == 0 {
        Map::empty()
    } else {
        infos_map(s.drop_last()).insert(s.last().slug, s.last())
    }
}

/// No two items of `s` have the same slug.
pub open spec fn distinct_slugs(s: Seq<ModelInfoView>) -> bool {
    forall|i: int, j: int| 0 <= i < s.len() && 0 <= j < s.len() && i != j ==> s[i].slug != s[j].slug
}

fn contains_modality(out: &Vec<InputModality>, m: InputModality) -> (r: bool)
    ensures
        r == out@.contains(m),
{
    let mut i: usize = 0;
    while i < out.len()
        invariant
            i <= out.len(),
            forall|j: int| 0 <= j < i ==> out@[j] != m,
        decreases out.len() - i,
    {
        if out[i] == m {
            return true;
        }
        i = i + 1;
    }
    false
}

/// The input modalities named in `raw`; text alone when none is recognised.
pub fn parse_input_modalities(raw: &[String]) -> (r: Vec<InputModality>)
    ensures
        r@ == modalities_of(strings_view(raw@)),
{
    let ghost rv = strings_view(raw@);
    let text = String::from_str("text");
    let image = String::from_str("image");
    let mut out: Vec<InputModality> = Vec::new();
    let mut i: usize = 0;
    while i < raw.len()
        invariant
            i <= raw@.len(),
            rv == strings_view(raw@),
            text@ == "text"@,
            image@ == "image"@,
            out@ == recognised_modalities(rv.take(i as int)),
        decreases raw@.len() - i,
    {
        assert(rv.take(i + 1).drop_last() =~= rv.take(i as int));
        assert(rv.take(i + 1).last() == raw@[i as int]@);
        let value = raw[i].as_str();
        if lowercase_equals(value, text.as_str()) && !contains_modality(&out, InputModality::Text) {
            out.push(InputModality::Text);
        } else if lowercase_equals(value, image.as_str()) && !contains_modality(
            &out,
            InputModality::Image,
        ) {
            out.push(InputModality::Image);
        }
        i = i + 1;
    }
    assert(rv.take(raw@.len() as int) =~= rv);
    if out.len() == 0 {
        out.push(InputModality::Text);
        assert(out@ =~= seq![InputModality::Text]);
    }
    out
}

fn opt_string_clone(o: &Option<String>) -> (r: Option<String>)
    ensures
        opt_string_view(r) == opt_string_view(*o),
{
    match o {
        Some(s) => Some(s.clone()),
        None => None,
    }
}

/// Map a raw catalog entry onto full model metadata, with
/// `base_instructions` as the model's instructions.
pub fn entry_to_model_info(entry: &OpenRouterModelEntry, base_instructions: &str) -> (r: ModelInfo)
    ensures
        r@ == model_info_of(entry@, base_instructions@),
{
    let display_name = match &entry.name {
        Some(name) => if is_blank_str(name.as_str()) {
            entry.id.clone()
        } else {
            name.clone()
        },
        None => entry.id.clone(),
    };
    let description = match &entry.description {
        Some(d) => if is_blank_str(d.as_str()) {
            None
        } else {
            Some(d.clone())
        },
        None => None,
    };
    let r = ModelInfo {
        slug: entry.id.clone(),
        display_name,
        description,
        default_reasoning_level: None,
        supported_reasoning_levels: Vec::new(),
        shell_type: ConfigShellToolType::Default,
        visibility: ModelVisibility::Unlisted,
        supported_in_api: true,
        priority: 0,
        additional_speed_tiers: Vec::new(),
        service_tiers: Vec::new(),
        default_service_tier: None,
        availability_nux: None,
        upgrade: None,
        base_instructions: String::from_str(base_instructions),
        model_messages: None,
        supports_reasoning_summaries: false,
        default_reasoning_summary: ReasoningSummary::Auto,
        support_verbosity: false,
        default_verbosity: None,
        apply_patch_tool_type: None,
        web_search_tool_type: WebSearchToolType::Text,
        truncation_policy: TruncationPolicyConfig::bytes(10_000),
        supports_parallel_tool_calls: false,
        supports_image_detail_original: false,
        context_window: entry.context_length,
        max_context_window: entry.context_length,
        auto_compact_token_limit: None,
        effective_context_window_percent: 95,
        experimental_supported_tools: Vec::new(),
        input_modalities: parse_input_modalities(entry.architecture.input_modalities.as_slice()),
        used_fallback_model_metadata: false,
        supports_search_tool: false,
        use_responses_lite: false,
        auto_review_model_override: None,
        tool_mode: None,
        multi_agent_version: None,
    };
    assert(r@.description == description_of(entry@));
    assert(r@.supported_reasoning_levels =~= Seq::<ReasoningEffort>::empty());
    assert(r@.additional_speed_tiers =~= Seq::<Seq<char>>::empty());
    assert(r@.service_tiers =~= Seq::<Seq<char>>::empty());
    assert(r@.experimental_supported_tools =~= Seq::<Seq<char>>::empty());
    r
}

proof fn lemma_recognised_modalities(raw: Seq<Seq<char>>)
    ensures
        recognised_modalities(raw).no_duplicates(),
        recognised_modalities(raw).len() <= 2,
        recognised_modalities(raw).contains(InputModality::Text) <==> exists|i: int|
            0 <= i < raw.len() && #[trigger] ascii_lowercase(raw[i]) == "text"@,
        recognised_modalities(raw).contains(InputModality::Image) <==> exists|i: int|
            0 <= i < raw.len() && #[trigger] ascii_lowercase(raw[i]) == "image"@,
    decreases raw.len(),
{
    reveal_strlit("text");
    reveal_strlit("image");
    if raw.len() > 0 {
        let init = raw.drop_last();
        lemma_recognised_modalities(init);
        let out = recognised_modalities(init);
        let value = ascii_lowercase(raw.last());
        assert("text"@ != "image"@) by {
            assert("text"@.len() != "image"@.len());
        }
        assert(forall|i: int| 0 <= i < init.len() ==> init[i] == raw[i]);
        assert(raw[raw.len() - 1] == raw.last());
        if out.len() == 2 {
            assert(out[0] != out[1]);
            if out[0] == InputModality::Text {
                assert(out[1] == InputModality::Image);
            } else {
                assert(out[1] == InputModality::Text);
            }
            assert(out.contains(out[0]));
            assert(out.contains(out[1]));
        }
        let res = recognised_modalities(raw);
        assert forall|m: InputModality| #[trigger] res.contains(m) <==> (out.contains(m) || (m
            == InputModality::Text && value == "text"@) || (m == InputModality::Image && value
            == "image"@)) by {
            if value == "text"@ && !out.contains(InputModality::Text) {
                assert(res =~= out.push(InputModality::Text));
                if res.contains(m) {
                    let k = choose|k: int| 0 <= k < res.len() && res[k] == m;
                    if k < out.len() {
                        assert(out[k] == m);
                    }
                }
                if out.contains(m) {
                    let k = choose|k: int| 0 <= k < out.len() && out[k] == m;
                    assert(res[k] == m);
                }
                if m == InputModality::Text {
                    assert(res[out.len() as int] == m);
                }
            } else if value == "image"@ && !out.contains(InputModality::Image) {
                assert(res =~= out.push(InputModality::Image));
                if res.contains(m) {
                    let k = choose|k: int| 0 <= k < res.len() && res[k] == m;
                    if k < out.len() {
                        assert(out[k] == m);
                    }
                }
                if out.contains(m) {
                    let k = choose|k: int| 0 <= k < out.len() && out[k] == m;
                    assert(res[k] == m);
                }
                if m == InputModality::Image {
                    assert(res[out.len() as int] == m);
                }
            } else {
                assert(res == out);
            }
        }
        assert(res.contains(InputModality::Text) == (exists|i: int|
            0 <= i < raw.len() && #[trigger] ascii_lowercase(raw[i]) == "text"@)) by {
            if exists|i: int| 0 <= i < raw.len() && #[trigger] ascii_lowercase(raw[i]) == "text"@ {
                let i = choose|i: int| 0 <= i < raw.len() && #[trigger] ascii_lowercase(raw[i]) == "text"@;
                if i < init.len() {
                    assert(ascii_lowercase(init[i]) == "text"@);
                }
            }
            if exists|i: int| 0 <= i < init.len() && #[trigger] ascii_lowercase(init[i]) == "text"@ {
                let i = choose|i: int| 0 <= i < init.len() && #[trigger] ascii_lowercase(init[i]) == "text"@;
                assert(ascii_lowercase(raw[i]) == "text"@);
            }
        }
        assert(res.contains(InputModality::Image) == (exists|i: int|
            0 <= i < raw.len() && #[trigger] ascii_lowercase(raw[i]) == "image"@)) by {
            if exists|i: int| 0 <= i < raw.len() && #[trigger] ascii_lowercase(raw[i]) == "image"@ {
                let i = choose|i: int| 0 <= i < raw.len() && #[trigger] ascii_lowercase(raw[i]) == "image"@;
                if i < init.len() {
                    assert(ascii_lowercase(init[i]) == "image"@);
                }
            }
            if exists|i: int| 0 <= i < init.len() && #[trigger] ascii_lowercase(init[i]) == "image"@ {
                let i = choose|i: int| 0 <= i < init.len() && #[trigger] ascii_lowercase(init[i]) == "image"@;
                assert(ascii_lowercase(raw[i]) == "image"@);
            }
        }
        if value == "text"@ && !out.contains(InputModality::Text) {
            let p = out.push(InputModality::Text);
            assert forall|a: int, b: int| 0 <= a < p.len() && 0 <= b < p.len() && a != b implies p[a] != p[b] by {
                if a == out.len() {
                    assert(out.contains(p[b]));
                } else if b == out.len() {
                    assert(out.contains(p[a]));
                }
            }
        } else if value == "image"@ && !out.contains(InputModality::Image) {
            let p = out.push(InputModality::Image);
            assert forall|a: int, b: int| 0 <= a < p.len() && 0 <= b < p.len() && a != b implies p[a] != p[b] by {
                if a == out.len() {
                    assert(out.contains(p[b]));
                } else if b == out.len() {
                    assert(out.contains(p[a]));
                }
            }
        }
    }
}

proof fn lemma_recognised_first(raw: Seq<Seq<char>>, j: int)
    requires
        0 <= j < raw.len(),
        ascii_lowercase(raw[j]) == "text"@ || ascii_lowercase(raw[j]) == "image"@,
        forall|k: int| 0 <= k < j ==> !(#[trigger] ascii_lowercase(raw[k]) == "text"@ || ascii_lowercase(raw[k]) == "image"@),
    ensures
        recognised_modalities(raw).len() >= 1,
        recognised_modalities(raw)[0] == (if ascii_lowercase(raw[j]) == "text"@ {
            InputModality::Text
        } else {
            InputModality::Image
        }),
    decreases raw.len(),
{
    reveal_strlit("text");
    reveal_strlit("image");
    assert("text"@ != "image"@) by {
        assert("text"@.len() != "image"@.len());
    }
    let init = raw.drop_last();
    let out = recognised_modalities(init);
    assert(forall|i: int| 0 <= i < init.len() ==> init[i] == raw[i]);
    assert(raw[raw.len() - 1] == raw.last());
    if j < init.len() {
        lemma_recognised_first(init, j);
    } else {
        lemma_recognised_modalities(init);
        if out.len() > 0 {
            let m = out[0];
            assert(out.contains(m));
            if m == InputModality::Text {
                let k = choose|k: int| 0 <= k < init.len() && #[trigger] ascii_lowercase(init[k]) == "text"@;
                assert(ascii_lowercase(raw[k]) == "text"@);
            } else {
                let k = choose|k: int| 0 <= k < init.len() && #[trigger] ascii_lowercase(init[k]) == "image"@;
                assert(ascii_lowercase(raw[k]) == "image"@);
            }
        }
        assert(out.len() == 0);
        assert(!out.contains(InputModality::Text));
        assert(!out.contains(InputModality::Image));
    }
}

/// The modalities of an entry are never empty and never repeat; image is
/// among them exactly when some raw value reads `image` in any ASCII case,
/// and text exactly when some raw value reads `text` or none reads either;
/// the first of them is the one that the first recognised raw value names.
pub proof fn law_modalities_are_distinct_and_defaulted(raw: Seq<Seq<char>>)
    ensures
        1 <= modalities_of(raw).len() <= 2,
        modalities_of(raw).no_duplicates(),
        modalities_of(raw).contains(InputModality::Image) <==> exists|i: int|
            0 <= i < raw.len() && #[trigger] ascii_lowercase(raw[i]) == "image"@,
        modalities_of(raw).contains(InputModality::Text) <==> (exists|i: int|
            0 <= i < raw.len() && #[trigger] ascii_lowercase(raw[i]) == "text"@) || !(exists|i: int|
            0 <= i < raw.len() && (#[trigger] ascii_lowercase(raw[i]) == "text"@ || ascii_lowercase(raw[i]) == "image"@)),
        forall|j: int|
            0 <= j < raw.len() && (#[trigger] ascii_lowercase(raw[j]) == "text"@ || ascii_lowercase(raw[j]) == "image"@)
                && (forall|k: int| 0 <= k < j ==> !(#[trigger] ascii_lowercase(raw[k]) == "text"@
                || ascii_lowercase(raw[k]) == "image"@)) ==> modalities_of(raw)[0] == (if ascii_lowercase(raw[j]) == "text"@ {
                InputModality::Text
            } else {
                InputModality::Image
            }),
{
    assert forall|j: int|
        0 <= j < raw.len() && (#[trigger] ascii_lowercase(raw[j]) == "text"@ || ascii_lowercase(raw[j]) == "image"@)
            && (forall|k: int| 0 <= k < j ==> !(#[trigger] ascii_lowercase(raw[k]) == "text"@
            || ascii_lowercase(raw[k]) == "image"@)) implies modalities_of(raw)[0] == (if ascii_lowercase(raw[j]) == "text"@ {
            InputModality::Text
        } else {
            InputModality::Image
        }) by {
        lemma_recognised_first(raw, j);
    }
    lemma_recognised_modalities(raw);
    let out = recognised_modalities(raw);
    if out.len() == 0 {
        assert(seq![InputModality::Text][0] == InputModality::Text);
        assert(!seq![InputModality::Text].contains(InputModality::Image));
    } else {
        let m = out[0];
        assert(out.contains(m));
    }
}

/// The metadata mapped from an entry keeps its id as slug; its display name is
/// the entry's name unless that is missing or blank, else the id; a
/// description is kept exactly when it is present and not blank; the input
/// modalities are those the raw values name, each once, text by default, the
/// first named first; both context windows are the entry's context
/// length; it is never marked as fallback metadata; it carries the given base
/// instructions, the default shell tool, no picker visibility, the text web
/// search tool, automatic reasoning summaries and a 10 000-byte truncation.
pub proof fn law_model_info_mapping(e: EntryView, base: Seq<char>)
    ensures
        model_info_of(e, base).slug == e.id,
        (e.name matches Some(n) && !is_blank(n)) ==> model_info_of(e, base).display_name == e.name->0,
        !(e.name matches Some(n) && !is_blank(n)) ==> model_info_of(e, base).display_name == e.id,
        model_info_of(e, base).description matches Some(d) ==> !is_blank(d) && e.description == Some(d),
        (e.description matches Some(d) && !is_blank(d)) ==> model_info_of(e, base).description
            == e.description,
        model_info_of(e, base).context_window == e.context_length,
        model_info_of(e, base).max_context_window == e.context_length,
        !model_info_of(e, base).used_fallback_model_metadata,
        model_info_of(e, base).base_instructions == base,
        model_info_of(e, base).shell_type == ConfigShellToolType::Default,
        model_info_of(e, base).visibility == ModelVisibility::Unlisted,
        model_info_of(e, base).web_search_tool_type == WebSearchToolType::Text,
        model_info_of(e, base).default_reasoning_summary == ReasoningSummary::Auto,
        model_info_of(e, base).truncation_policy == (TruncationPolicyConfig {
            mode: TruncationMode::Bytes,
            limit: 10_000,
        }),
        1 <= model_info_of(e, base).input_modalities.len() <= 2,
        model_info_of(e, base).input_modalities.no_duplicates(),
        model_info_of(e, base).input_modalities.contains(InputModality::Image) <==> exists|i: int|
            0 <= i < e.input_modalities.len() && #[trigger] ascii_lowercase(e.input_modalities[i]) == "image"@,
        model_info_of(e, base).input_modalities.contains(InputModality::Text) <==> (exists|i: int|
            0 <= i < e.input_modalities.len() && #[trigger] ascii_lowercase(e.input_modalities[i]) == "text"@)
            || !(exists|i: int|
            0 <= i < e.input_modalities.len() && (#[trigger] ascii_lowercase(e.input_modalities[i]) == "text"@
            || ascii_lowercase(e.input_modalities[i]) == "image"@)),
        forall|j: int|
            0 <= j < e.input_modalities.len() && (#[trigger] ascii_lowercase(e.input_modalities[j]) == "text"@
                || ascii_lowercase(e.input_modalities[j]) == "image"@) && (forall|k: int| 0 <= k < j ==> !(
                #[trigger] ascii_lowercase(e.input_modalities[k]) == "text"@ || ascii_lowercase(
                e.input_modalities[k],
            ) == "image"@)) ==> model_info_of(e, base).input_modalities[0] == (if ascii_lowercase(
                e.input_modalities[j],
            ) == "text"@ {
                InputModality::Text
            } else {
                InputModality::Image
            }),
{
    law_modalities_are_distinct_and_defaulted(e.input_modalities);
}

/// The catalog of a list of entries holds a model for exactly the non-empty
/// ids among them, and the model for an id is the one mapped from the last
/// entry with that id.
pub proof fn law_catalog_resolves_last_entry(entries: Seq<EntryView>, base: Seq<char>)
    ensures
        !catalog_of(entries, base).contains_key(Seq::<char>::empty()),
        forall|k: Seq<char>| #[trigger] catalog_of(entries, base).contains_key(k) <==> (k.len() > 0
            && exists|i: int| 0 <= i < entries.len() && entries[i].id == k),
        forall|i: int|
            0 <= i < entries.len() && entries[i].id.len() > 0 && (forall|j: int|
                i < j < entries.len() ==> entries[j].id != entries[i].id) ==> #[trigger] catalog_of(entries, base)[entries[i].id] == model_info_of(entries[i], base),
    decreases entries.len(),
{
    if entries.len() > 0 {
        let init = entries.drop_last();
        let last = entries.last();
        law_catalog_resolves_last_entry(init, base);
        assert(forall|i: int| 0 <= i < init.len() ==> init[i] == entries[i]);
        assert(entries[entries.len() - 1] == last);
        assert forall|k: Seq<char>| #[trigger] catalog_of(entries, base).contains_key(k) <==> (k.len() > 0
            && exists|i: int| 0 <= i < entries.len() && entries[i].id == k) by {
            if exists|i: int| 0 <= i < entries.len() && entries[i].id == k {
                let i = choose|i: int| 0 <= i < entries.len() && entries[i].id == k;
                if i < init.len() {
                    assert(init[i].id == k);
                }
            }
            if catalog_of(init, base).contains_key(k) {
                let i = choose|i: int| 0 <= i < init.len() && init[i].id == k;
                assert(entries[i].id == k);
            }
        }
        assert forall|i: int|
            0 <= i < entries.len() && entries[i].id.len() > 0 && (forall|j: int|
                i < j < entries.len() ==> entries[j].id != entries[i].id) implies #[trigger] catalog_of(entries, base)[entries[i].id] == model_info_of(entries[i], base) by {
            if i < init.len() {
                assert(entries[entries.len() - 1].id != entries[i].id);
                assert forall|j: int| i < j < init.len() implies init[j].id != init[i].id by {
                    assert(entries[j].id != entries[i].id);
                }
                assert(catalog_of(init, base)[init[i].id] == model_info_of(init[i], base));
            }
        }
    }
}

proof fn lemma_infos_map_keys(s: Seq<ModelInfoView>)
    requires
        distinct_slugs(s),
    ensures
        forall|k: Seq<char>| #[trigger] infos_map(s).contains_key(k) <==> exists|i: int| 0 <= i < s.len() && s[i].slug == k,
        forall|i: int| 0 <= i < s.len() ==> #[trigger] infos_map(s)[s[i].slug] == s[i],
        infos_map(s).dom().finite(),
        infos_map(s).len() == s.len(),
    decreases s.len(),
{
    if s.len() > 0 {
        let init = s.drop_last();
        let last = s.last();
        assert(distinct_slugs(init)) by {
            assert forall|i: int, j: int| 0 <= i < init.len() && 0 <= j < init.len() && i != j implies init[i].slug != init[j].slug by {
                assert(init[i] == s[i]);
                assert(init[j] == s[j]);
            }
        }
        lemma_infos_map_keys(init);
        assert forall|k: Seq<char>| #[trigger] infos_map(s).contains_key(k) <==> exists|i: int| 0 <= i < s.len() && s[i].slug == k by {
            if infos_map(init).contains_key(k) {
                let i = choose|i: int| 0 <= i < init.len() && init[i].slug == k;
                assert(s[i].slug == k);
            }
            if k == last.slug {
                assert(s[s.len() - 1].slug == k);
            }
            if exists|i: int| 0 <= i < s.len() && s[i].slug == k {
                let i = choose|i: int| 0 <= i < s.len() && s[i].slug == k;
                if i < s.len() - 1 {
                    assert(init[i].slug == k);
                }
            }
        }
        assert forall|i: int| 0 <= i < s.len() implies #[trigger] infos_map(s)[s[i].slug] == s[i] by {
            if i < s.len() - 1 {
                assert(init[i] == s[i]);
                assert(s[i].slug != s[s.len() - 1].slug);
            }
        }
        if infos_map(init).contains_key(last.slug) {
            let i = choose|i: int| 0 <= i < init.len() && init[i].slug == last.slug;
            assert(s[i].slug == s[s.len() - 1].slug);
        }
    }
}

proof fn lemma_infos_map_update(s: Seq<ModelInfoView>, j: int, v: ModelInfoView)
    requires
        distinct_slugs(s),
        0 <= j < s.len(),
        s[j].slug == v.slug,
    ensures
        distinct_slugs(s.update(j, v)),
        infos_map(s.update(j, v)) == infos_map(s).insert(v.slug, v),
{
    let t = s.update(j, v);
    assert(distinct_slugs(t)) by {
        assert forall|a: int, b: int| 0 <= a < t.len() && 0 <= b < t.len() && a != b implies t[a].slug != t[b].slug by {
            assert(t[a].slug == s[a].slug);
            assert(t[b].slug == s[b].slug);
        }
    }
    lemma_infos_map_keys(s);
    lemma_infos_map_keys(t);
    let lhs = infos_map(t);
    let rhs = infos_map(s).insert(v.slug, v);
    assert forall|k: Seq<char>| #[trigger] lhs.contains_key(k) <==> rhs.contains_key(k) by {
        if lhs.contains_key(k) {
            let i = choose|i: int| 0 <= i < t.len() && t[i].slug == k;
            assert(s[i].slug == k);
        }
        if infos_map(s).contains_key(k) {
            let i = choose|i: int| 0 <= i < s.len() && s[i].slug == k;
            assert(t[i].slug == k);
        }
        if k == v.slug {
            assert(t[j].slug == k);
        }
    }
    assert forall|k: Seq<char>| #[trigger] lhs.contains_key(k) implies lhs[k] == rhs[k] by {
        let i = choose|i: int| 0 <= i < t.len() && t[i].slug == k;
        assert(lhs[t[i].slug] == t[i]);
        if i != j {
            assert(s[i] == t[i]);
            assert(infos_map(s)[s[i].slug] == s[i]);
        }
    }
    assert(lhs =~= rhs);
}

proof fn lemma_infos_map_push(s: Seq<ModelInfoView>, v: ModelInfoView)
    requires
        distinct_slugs(s),
        forall|i: int| 0 <= i < s.len() ==> s[i].slug != v.slug,
    ensures
        distinct_slugs(s.push(v)),
        infos_map(s.push(v)) == infos_map(s).insert(v.slug, v),
{
    let t = s.push(v);
    assert(t.drop_last() =~= s);
    assert(distinct_slugs(t)) by {
        assert forall|a: int, b: int| 0 <= a < t.len() && 0 <= b < t.len() && a != b implies t[a].slug != t[b].slug by {
            if a < s.len() {
                assert(t[a] == s[a]);
            }
            if b < s.len() {
                assert(t[b] == s[b]);
            }
        }
    }
}

proof fn lemma_infos_view_push(v: Seq<ModelInfo>, m: ModelInfo)
    ensures
        infos_view(v.push(m)) == infos_view(v).push(m@),
{
    assert(infos_view(v.push(m)) =~= infos_view(v).push(m@));
}

/// The OpenRouter model catalog, keyed by model id.
///
/// Resolution only: a slug typed by the user is looked up here for accurate
/// metadata; the catalog never feeds the model picker.
#[derive(Debug)]
pub struct OpenRouterCatalog {
    models: Vec<ModelInfo>,
}

impl View for OpenRouterCatalog {
    type V = Map<Seq<char>, ModelInfoView>;

    closed spec fn view(&self) -> Map<Seq<char>, ModelInfoView> {
        infos_map(infos_view(self.models@))
    }
}

impl Default for OpenRouterCatalog {
    fn default() -> (r: Self)
        ensures
            r@ == Map::<Seq<char>, ModelInfoView>::empty(),
    {
        let r = OpenRouterCatalog { models: Vec::new() };
        assert(infos_view(r.models@) =~= Seq::<ModelInfoView>::empty());
        r
    }
}

impl OpenRouterCatalog {
    #[verifier::type_invariant]
    spec fn slugs_are_distinct(self) -> bool {
        distinct_slugs(infos_view(self.models@))
    }

    /// Key the catalog entries by id: entries with an empty id are dropped,
    /// and a later entry replaces an earlier one with the same id.
    pub fn from_entries(entries: Vec<OpenRouterModelEntry>, base_instructions: &str) -> (r: Self)
        ensures
            r@ == catalog_of(entries_view(entries@), base_instructions@),
    {
        let ghost ev = entries_view(entries@);
        let mut models: Vec<ModelInfo> = Vec::new();
        let mut i: usize = 0;
        assert(infos_view(models@) =~= Seq::<ModelInfoView>::empty());
        while i < entries.len()
            invariant
                i <= entries@.len(),
                ev == entries_view(entries@),
                distinct_slugs(infos_view(models@)),
                infos_map(infos_view(models@)) == catalog_of(ev.take(i as int), base_instructions@),
            decreases entries@.len() - i,
        {
            assert(ev.take(i + 1).drop_last() =~= ev.take(i as int));
            assert(ev.take(i + 1).last() == entries@[i as int]@);
            let entry = &entries[i];
            if !entry.id.as_str().is_empty() {
                let info = entry_to_model_info(entry, base_instructions);
                let ghost before = infos_view(models@);
                let mut j: usize = 0;
                let mut found = false;
                let mut at: usize = 0;
                while j < models.len()
                    invariant
                        j <= models@.len(),
                        before == infos_view(models@),
                        !found ==> forall|k: int| 0 <= k < j ==> before[k].slug != info@.slug,
                        found ==> at < models@.len() && before[at as int].slug == info@.slug,
                    decreases models@.len() - j,
                {
                    if !found && models[j].slug == info.slug {
                        found = true;
                        at = j;
                    }
                    j = j + 1;
                }
                if found {
                    proof {
                        lemma_infos_map_update(before, at as int, info@);
                    }
                    models.set(at, info);
                    assert(infos_view(models@) =~= before.update(at as int, info@));
                } else {
                    proof {
                        lemma_infos_map_push(before, info@);
                        lemma_infos_view_push(models@, info);
                    }
                    models.push(info);
                }
            }
            i = i + 1;
        }
        assert(ev.take(entries@.len() as int) =~= ev);
        OpenRouterCatalog { models }
    }

    /// The metadata of `model`, if the catalog has it.
    pub fn get(&self, model: &str) -> (r: Option<&ModelInfo>)
        ensures
            match r {
                Some(info) => self@.contains_key(model@) && info@ == self@[model@],
                None => !self@.contains_key(model@),
            },
    {
        proof {
            use_type_invariant(self);
            lemma_infos_map_keys(infos_view(self.models@));
        }
        let key = String::from_str(model);
        let mut i: usize = 0;
        while i < self.models.len()
            invariant
                i <= self.models@.len(),
                key@ == model@,
                forall|k: int| 0 <= k < i ==> self.models@[k].slug@ != model@,
            decreases self.models@.len() - i,
        {
            if self.models[i].slug == key {
                proof {
                    use_type_invariant(self);
                    lemma_infos_map_keys(infos_view(self.models@));
                    assert(infos_view(self.models@)[i as int] == self.models@[i as int]@);
                    assert(infos_view(self.models@)[i as int].slug == model@);
                }
                return Some(&self.models[i]);
            }
            i = i + 1;
        }
        proof {
            if self@.contains_key(model@) {
                let k = choose|k: int| 0 <= k < infos_view(self.models@).len() && infos_view(self.models@)[k].slug == model@;
                assert(self.models@[k].slug@ == model@);
            }
        }
        None
    }

    /// The number of models in the catalog.
    pub fn len(&self) -> (r: usize)
        ensures
            r == self@.len(),
    {
        proof {
            use_type_invariant(self);
            lemma_infos_map_keys(infos_view(self.models@));
        }
        self.models.len()
    }

    pub fn is_empty(&self) -> (r: bool)
        ensures
            r == (self@.len() == 0),
    {
        proof {
            use_type_invariant(self);
            lemma_infos_map_keys(infos_view(self.models@));
        }
        self.models.len() == 0
    }
}

} // verus!
