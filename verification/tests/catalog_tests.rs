use openrouter_models::catalog::{
    catalog_url, entry_to_model_info, parse_input_modalities, ConfigShellToolType, InputModality,
    ModelVisibility, OpenRouterArchitecture, OpenRouterCatalog, OpenRouterModelEntry,
    ReasoningSummary, TruncationPolicyConfig, WebSearchToolType,
};

const BASE: &str = "You are a coding agent.";

fn entry(
    id: &str,
    name: Option<&str>,
    description: Option<&str>,
    context_length: Option<i64>,
    modalities: &[&str],
) -> OpenRouterModelEntry {
    OpenRouterModelEntry {
        id: id.to_string(),
        name: name.map(|s| s.to_string()),
        description: description.map(|s| s.to_string()),
        context_length,
        architecture: OpenRouterArchitecture {
            input_modalities: modalities.iter().map(|s| s.to_string()).collect(),
        },
    }
}

fn sample_entries() -> Vec<OpenRouterModelEntry> {
    vec![
        entry(
            "vendor/text-and-image",
            Some("Vendor: Text & Image"),
            Some("A multimodal routed model."),
            Some(200_000),
            &["text", "image"],
        ),
        entry("vendor/text-only", Some("Vendor: Text Only"), Some("   "), Some(128_000), &["text"]),
        entry("vendor/no-metadata", None, None, None, &[]),
        entry("", Some("should be skipped"), None, None, &[]),
    ]
}

fn strings(items: &[&str]) -> Vec<String> {
    items.iter().map(|s| s.to_string()).collect()
}

#[test]
fn from_entries_parses_catalog_and_maps_entries() {
    let catalog = OpenRouterCatalog::from_entries(sample_entries(), BASE);

    // Empty ids are dropped.
    assert_eq!(catalog.len(), 3);

    let multimodal = catalog.get("vendor/text-and-image").expect("multimodal entry should resolve");
    assert_eq!(multimodal.slug, "vendor/text-and-image");
    assert_eq!(multimodal.display_name, "Vendor: Text & Image");
    assert_eq!(multimodal.description.as_deref(), Some("A multimodal routed model."));
    assert_eq!(multimodal.context_window, Some(200_000));
    assert_eq!(multimodal.max_context_window, Some(200_000));
    assert_eq!(multimodal.input_modalities, vec![InputModality::Text, InputModality::Image]);
    assert!(!multimodal.used_fallback_model_metadata);

    let text_only = catalog.get("vendor/text-only").expect("text-only entry should resolve");
    assert_eq!(text_only.description, None);
    assert_eq!(text_only.context_window, Some(128_000));
    assert_eq!(text_only.input_modalities, vec![InputModality::Text]);

    let sparse = catalog.get("vendor/no-metadata").expect("sparse entry should resolve");
    assert_eq!(sparse.display_name, "vendor/no-metadata");
    assert_eq!(sparse.description, None);
    assert_eq!(sparse.context_window, None);
    assert_eq!(sparse.input_modalities, vec![InputModality::Text]);

    assert!(catalog.get("").is_none());
    assert!(catalog.get("vendor/unknown").is_none());
}

#[test]
fn empty_catalog_has_no_entries() {
    let catalog = OpenRouterCatalog::default();
    assert!(catalog.is_empty());
    assert!(catalog.get("anything").is_none());
}

#[test]
fn later_entry_with_same_id_replaces_earlier_one() {
    let catalog = OpenRouterCatalog::from_entries(vec![
        entry("a/model", Some("First"), None, Some(1), &["text"]),
        entry("b/model", Some("Other"), None, Some(2), &["text"]),
        entry("a/model", Some("Second"), None, Some(3), &["image"]),
    ], BASE);
    assert_eq!(catalog.len(), 2);
    assert!(!catalog.is_empty());
    let a = catalog.get("a/model").unwrap();
    assert_eq!(a.display_name, "Second");
    assert_eq!(a.context_window, Some(3));
    assert_eq!(a.input_modalities, vec![InputModality::Image]);
    assert_eq!(catalog.get("b/model").unwrap().display_name, "Other");
}

#[test]
fn mapped_metadata_uses_conservative_defaults() {
    let info = entry_to_model_info(&entry("x/y", Some("X Y"), None, Some(42), &["text"]), BASE);
    assert!(info.supported_in_api);
    assert_eq!(info.priority, 0);
    assert!(!info.supports_reasoning_summaries);
    assert!(!info.support_verbosity);
    assert!(!info.supports_parallel_tool_calls);
    assert!(!info.supports_image_detail_original);
    assert_eq!(info.truncation_policy, TruncationPolicyConfig::bytes(10_000));
    assert_eq!(info.base_instructions, BASE);
    assert_eq!(info.shell_type, ConfigShellToolType::Default);
    assert_eq!(info.visibility, ModelVisibility::Unlisted);
    assert_eq!(info.web_search_tool_type, WebSearchToolType::Text);
    assert_eq!(info.default_reasoning_summary, ReasoningSummary::Auto);
    assert!(info.default_reasoning_level.is_none());
    assert!(info.supported_reasoning_levels.is_empty());
    assert!(info.additional_speed_tiers.is_empty());
    assert!(info.service_tiers.is_empty());
    assert!(info.default_service_tier.is_none());
    assert!(info.availability_nux.is_none());
    assert!(info.upgrade.is_none());
    assert!(info.model_messages.is_none());
    assert!(info.default_verbosity.is_none());
    assert!(info.apply_patch_tool_type.is_none());
    assert!(info.auto_compact_token_limit.is_none());
    assert!(info.experimental_supported_tools.is_empty());
    assert!(info.auto_review_model_override.is_none());
    assert!(info.tool_mode.is_none());
    assert!(info.multi_agent_version.is_none());
    assert_eq!(info.effective_context_window_percent, 95);
    assert!(!info.used_fallback_model_metadata);
    assert!(!info.supports_search_tool);
    assert!(!info.use_responses_lite);
    assert_eq!(info.max_context_window, Some(42));
}

#[test]
fn blank_name_falls_back_to_id_for_any_unicode_white_space() {
    let info = entry_to_model_info(&entry("v/m", Some("\t\u{3000}\u{2003} "), Some("\u{a0}\n"), None, &[]), BASE);
    assert_eq!(info.display_name, "v/m");
    assert_eq!(info.description, None);
    let kept = entry_to_model_info(&entry("v/m", Some(" Name "), Some("\u{2003}d"), None, &[]), BASE);
    assert_eq!(kept.display_name, " Name ");
    assert_eq!(kept.description.as_deref(), Some("\u{2003}d"));
}

#[test]
fn modalities_ignore_case_repeats_and_unknown_values() {
    assert_eq!(
        parse_input_modalities(&strings(&["IMAGE", "audio", "Text", "image", "TEXT"])),
        vec![InputModality::Image, InputModality::Text]
    );
    assert_eq!(parse_input_modalities(&strings(&["file", "audio"])), vec![InputModality::Text]);
    assert_eq!(parse_input_modalities(&strings(&[])), vec![InputModality::Text]);
    assert_eq!(parse_input_modalities(&strings(&["ImAgE"])), vec![InputModality::Image]);
    assert_eq!(parse_input_modalities(&strings(&["texts", " text"])), vec![InputModality::Text]);
}

#[test]
fn catalog_url_appends_models_path() {
    assert_eq!(catalog_url("https://openrouter.ai/api/v1"), "https://openrouter.ai/api/v1/models");
    assert_eq!(catalog_url(""), "/models");
}
