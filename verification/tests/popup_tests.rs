use std::path::PathBuf;

use openrouter_models::popup::{
    AppEvent, BottomPane, ChatWidget, FooterHint, LineStyle, PaneRequest,
    OPENROUTER_MODEL_MENU_VIEW_ID, RECENT_OPENROUTER_VIEW_ID,
};
use openrouter_models::recents::RecentOpenRouterModels;
use openrouter_models::runtime::App;
use openrouter_models::text::decimal_string;

fn widget(recents: &[&str]) -> ChatWidget {
    ChatWidget {
        recent_openrouter_models: recents.iter().map(|s| s.to_string()).collect(),
        bottom_pane: BottomPane { requests: Vec::new() },
        error_messages: Vec::new(),
    }
}

#[test]
fn entry_item_is_absent_without_recents() {
    assert!(widget(&[]).recent_openrouter_models_entry_item().is_none());
}

#[test]
fn entry_item_counts_saved_slugs() {
    let item = widget(&["a/b", "c/d"]).recent_openrouter_models_entry_item().unwrap();
    assert_eq!(item.name, "Recent OpenRouter models");
    assert_eq!(
        item.description.as_deref(),
        Some("Reuse or remove a previously typed slug (2 saved).")
    );
    assert!(matches!(item.actions.as_slice(), [AppEvent::OpenRecentOpenRouterModelsPopup]));
    assert!(!item.dismiss_on_select);
    assert!(!item.is_disabled);
}

#[test]
fn decimal_string_writes_digits() {
    assert_eq!(decimal_string(0), "0");
    assert_eq!(decimal_string(7), "7");
    assert_eq!(decimal_string(10), "10");
    assert_eq!(decimal_string(1203), "1203");
}

#[test]
fn popup_lists_one_row_per_slug() {
    let params = widget(&["x/one", "y/two"]).build_recent_openrouter_models_popup_params();
    assert_eq!(params.view_id.as_deref(), Some(RECENT_OPENROUTER_VIEW_ID));
    assert_eq!(params.footer_hint, Some(FooterHint::StandardPopupHint));
    assert_eq!(params.header.len(), 2);
    assert_eq!(params.header[0].text, "Recent OpenRouter models");
    assert_eq!(params.header[0].style, LineStyle::Bold);
    assert_eq!(params.header[1].text, "Reuse a slug or remove one you no longer want.");
    assert_eq!(params.header[1].style, LineStyle::Dim);
    assert_eq!(params.items.len(), 2);
    assert_eq!(params.items[0].name, "x/one");
    assert_eq!(params.items[1].name, "y/two");
    assert_eq!(
        params.items[1].description.as_deref(),
        Some("Select to switch to or remove this slug.")
    );
    match params.items[1].actions.as_slice() {
        [AppEvent::OpenRecentOpenRouterModelMenu { model }] => assert_eq!(model, "y/two"),
        _ => panic!("a slug row opens that slug's menu"),
    }
}

#[test]
fn empty_popup_shows_disabled_placeholder() {
    let params = widget(&[]).build_recent_openrouter_models_popup_params();
    assert_eq!(params.items.len(), 1);
    assert_eq!(params.items[0].name, "No recent OpenRouter models yet.");
    assert!(params.items[0].is_disabled);
    assert!(params.items[0].actions.is_empty());
}

#[test]
fn open_popup_and_refresh_request_the_pane() {
    let mut w = widget(&["m/a"]);
    w.open_recent_openrouter_models_popup();
    w.refresh_recent_openrouter_models_popup();
    assert_eq!(w.bottom_pane.requests.len(), 2);
    match &w.bottom_pane.requests[0] {
        PaneRequest::Show(p) => assert_eq!(p.items[0].name, "m/a"),
        _ => panic!("opening shows the list"),
    }
    match &w.bottom_pane.requests[1] {
        PaneRequest::ReplaceActive { view_ids, params } => {
            assert_eq!(view_ids, &vec![
                RECENT_OPENROUTER_VIEW_ID.to_string(),
                OPENROUTER_MODEL_MENU_VIEW_ID.to_string()
            ]);
            assert_eq!(params.items[0].name, "m/a");
        }
        _ => panic!("refreshing replaces the active list or menu"),
    }
}

#[test]
fn model_menu_switches_or_removes_the_slug() {
    let mut w = widget(&[]);
    w.open_recent_openrouter_model_menu("vendor/m".to_string());
    let params = match &w.bottom_pane.requests[0] {
        PaneRequest::Show(p) => p,
        _ => panic!("the menu is shown"),
    };
    assert_eq!(params.view_id.as_deref(), Some(OPENROUTER_MODEL_MENU_VIEW_ID));
    assert_eq!(params.header[0].text, "OpenRouter · vendor/m");
    assert_eq!(params.items[0].name, "Switch to vendor/m");
    assert!(params.items[0].dismiss_on_select);
    match params.items[0].actions.as_slice() {
        [AppEvent::SwitchToOpenRouterModel { model }] => assert_eq!(model, "vendor/m"),
        _ => panic!("the first row switches"),
    }
    assert_eq!(params.items[1].name, "Remove from recents");
    match params.items[1].actions.as_slice() {
        [AppEvent::RemoveRecentOpenRouterModel { model }] => assert_eq!(model, "vendor/m"),
        _ => panic!("the second row removes"),
    }
}

#[test]
fn removed_slug_disappears_from_refreshed_list() {
    let mut app = App {
        recent_openrouter_models: RecentOpenRouterModels::default(),
        chat_widget: widget(&[]),
        codex_home: PathBuf::from("/tmp/codex"),
    };
    app.recent_openrouter_models.record("a".to_string());
    app.recent_openrouter_models.record("b".to_string());
    app.recent_openrouter_models.remove("a");
    app.sync_recent_openrouter_models_to_widget();
    let params = app.chat_widget.build_recent_openrouter_models_popup_params();
    let names: Vec<&str> = params.items.iter().map(|i| i.name.as_str()).collect();
    assert_eq!(names, vec!["b"]);
}

#[test]
fn sync_copies_the_store_to_the_widget() {
    let mut app = App {
        recent_openrouter_models: RecentOpenRouterModels { recents: vec!["p".to_string(), "q".to_string()] },
        chat_widget: widget(&["stale"]),
        codex_home: PathBuf::from("/tmp/codex"),
    };
    app.sync_recent_openrouter_models_to_widget();
    assert_eq!(app.chat_widget.recent_openrouter_models, vec!["p".to_string(), "q".to_string()]);
}

#[test]
fn failed_save_becomes_a_chat_error() {
    let mut app = App {
        recent_openrouter_models: RecentOpenRouterModels::default(),
        chat_widget: widget(&[]),
        codex_home: PathBuf::from("/tmp/codex"),
    };
    app.persist_recent_openrouter_models(Ok(()));
    assert!(app.chat_widget.error_messages.is_empty());
    app.persist_recent_openrouter_models(Err("disk full".to_string()));
    assert_eq!(
        app.chat_widget.error_messages,
        vec!["Failed to save recent OpenRouter models: disk full".to_string()]
    );
}
