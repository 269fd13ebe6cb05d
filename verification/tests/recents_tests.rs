use std::io::ErrorKind;
use std::path::Path;
use std::path::PathBuf;

use openrouter_models::recents::{
    LoadRecentsError, PersistedRecents, RecentOpenRouterModels, MAX_RECENT_OPENROUTER_MODELS,
};

fn strings(items: &[&str]) -> Vec<String> {
    items.iter().map(|s| s.to_string()).collect()
}

#[test]
fn load_missing_file_returns_empty() {
    let loaded = RecentOpenRouterModels::load(PersistedRecents::Missing);
    assert!(loaded.is_empty());
    assert_eq!(loaded.recents, Vec::<String>::new());
}

#[test]
fn load_corrupt_json_falls_back_to_empty() {
    let loaded = RecentOpenRouterModels::load(PersistedRecents::Corrupt(
        "expected value at line 1 column 3".to_string(),
    ));
    assert!(loaded.is_empty());
}

#[test]
fn load_unreadable_file_falls_back_to_empty() {
    let loaded =
        RecentOpenRouterModels::load(PersistedRecents::Unreadable {
            kind: ErrorKind::PermissionDenied,
            message: "permission denied".to_string(),
        });
    assert!(loaded.is_empty());
}

#[test]
fn load_parsed_file_keeps_its_recents() {
    let stored = RecentOpenRouterModels { recents: strings(&["x/one", "y/two"]) };
    let loaded = RecentOpenRouterModels::load(PersistedRecents::Parsed(stored.clone()));
    assert_eq!(loaded, stored);
}

#[test]
fn load_persisted_reports_each_failure() {
    match RecentOpenRouterModels::load_persisted(PersistedRecents::Missing) {
        Ok(m) => assert!(m.is_empty()),
        Err(_) => panic!("a missing file is no error"),
    }
    match RecentOpenRouterModels::load_persisted(PersistedRecents::Unreadable {
        kind: ErrorKind::PermissionDenied,
        message: "denied".to_string(),
    }) {
        Err(LoadRecentsError::Io { kind, message }) => {
            assert_eq!(kind, ErrorKind::PermissionDenied);
            assert_eq!(message, "denied");
        }
        _ => panic!("a read error is passed on"),
    }
    match RecentOpenRouterModels::load_persisted(PersistedRecents::Corrupt("bad".to_string())) {
        Err(LoadRecentsError::InvalidData(msg)) => {
            assert_eq!(msg, "failed to parse recent OpenRouter models: bad")
        }
        _ => panic!("a parse error is invalid data"),
    }
}

#[test]
fn record_promotes_existing_slug_to_front_without_duplicate() {
    let mut models = RecentOpenRouterModels::default();
    models.record("a".to_string());
    models.record("b".to_string());
    models.record("c".to_string());
    models.record("a".to_string());
    assert_eq!(models.recents, vec!["a".to_string(), "c".to_string(), "b".to_string()]);
}

#[test]
fn record_caps_at_max_and_keeps_most_recent() {
    let mut models = RecentOpenRouterModels::default();
    for i in 0..(MAX_RECENT_OPENROUTER_MODELS + 3) {
        models.record(format!("m{i}"));
    }
    assert_eq!(models.recents.len(), MAX_RECENT_OPENROUTER_MODELS);
    assert_eq!(models.recents[0], format!("m{}", MAX_RECENT_OPENROUTER_MODELS + 2));
    assert!(!models.recents.contains(&"m0".to_string()));
}

#[test]
fn remove_drops_only_the_matching_slug() {
    let mut models = RecentOpenRouterModels::default();
    models.record("a".to_string());
    models.record("b".to_string());
    models.remove("a");
    assert_eq!(models.recents, vec!["b".to_string()]);
}

#[test]
fn record_twice_is_the_same_as_once() {
    let mut once = RecentOpenRouterModels { recents: strings(&["p", "q", "r"]) };
    once.record("q".to_string());
    let mut twice = once.clone();
    twice.record("q".to_string());
    assert_eq!(once.recents, strings(&["q", "p", "r"]));
    assert_eq!(twice, once);
}

#[test]
fn record_drops_every_earlier_copy() {
    let mut models = RecentOpenRouterModels { recents: strings(&["a", "b", "a", "c", "a"]) };
    models.record("a".to_string());
    assert_eq!(models.recents, strings(&["a", "b", "c"]));
}

#[test]
fn record_into_full_list_drops_the_oldest() {
    let full: Vec<String> = (0..MAX_RECENT_OPENROUTER_MODELS).map(|i| format!("s{i}")).collect();
    let mut models = RecentOpenRouterModels { recents: full.clone() };
    models.record("new".to_string());
    let mut expected = vec!["new".to_string()];
    expected.extend(full[..MAX_RECENT_OPENROUTER_MODELS - 1].iter().cloned());
    assert_eq!(models.recents, expected);
}

#[test]
fn record_of_known_slug_in_full_list_loses_nothing() {
    let full: Vec<String> = (0..MAX_RECENT_OPENROUTER_MODELS).map(|i| format!("s{i}")).collect();
    let mut models = RecentOpenRouterModels { recents: full.clone() };
    models.record("s7".to_string());
    assert_eq!(models.recents.len(), MAX_RECENT_OPENROUTER_MODELS);
    assert_eq!(models.recents[0], "s7");
    for slug in &full {
        assert!(models.recents.contains(slug));
    }
}

#[test]
fn remove_right_after_record_restores_the_rest() {
    let mut models = RecentOpenRouterModels { recents: strings(&["a", "b", "c"]) };
    models.record("b".to_string());
    models.remove("b");
    assert_eq!(models.recents, strings(&["a", "c"]));
}

#[test]
fn remove_of_absent_slug_changes_nothing() {
    let mut models = RecentOpenRouterModels { recents: strings(&["a", "b"]) };
    models.remove("z");
    assert_eq!(models.recents, strings(&["a", "b"]));
    models.remove("a");
    models.remove("a");
    assert_eq!(models.recents, strings(&["b"]));
}

#[test]
fn iter_yields_most_recent_first() {
    let mut models = RecentOpenRouterModels::default();
    models.record("one".to_string());
    models.record("two".to_string());
    let listed: Vec<&str> = models.iter().iter().map(String::as_str).collect();
    assert_eq!(listed, vec!["two", "one"]);
    assert!(!models.is_empty());
}

#[test]
fn state_file_path_joins_home_and_file_name() {
    let home = Path::new("codex-home");
    assert_eq!(
        RecentOpenRouterModels::state_file_path(home),
        home.join("recent-openrouter-models.json")
    );
    assert_eq!(
        RecentOpenRouterModels::state_file_path(Path::new("/tmp/codex")),
        PathBuf::from("/tmp/codex").join("recent-openrouter-models.json")
    );
    assert_eq!(
        RecentOpenRouterModels::state_file_path(Path::new("")),
        PathBuf::from("recent-openrouter-models.json")
    );
    assert_eq!(
        RecentOpenRouterModels::state_file_path(home).file_name().and_then(|n| n.to_str()),
        Some("recent-openrouter-models.json")
    );
}
