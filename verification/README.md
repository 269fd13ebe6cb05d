# openrouter_models

Verified logic behind OpenRouter model resolution and the recently-used
OpenRouter model list of the `/model` popup.

- `src/text.rs`: white-space, ASCII-case and decimal helpers on strings.
- `src/catalog.rs`: catalog entries mapped onto model metadata and keyed by id.
- `src/recents.rs`: the recents list (record, remove, load) and its laws.
- `src/popup.rs`: the popup rows and menus built from the recents.
- `src/runtime.rs`: the app glue that syncs the store and reports save failures.
- `app/`: HTTP fetch of the catalog, the state file's reading and writing, JSON.
