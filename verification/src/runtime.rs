//! App-level glue between the recents store and the chat widget.

use vstd::prelude::*;
use crate::popup::ChatWidget;
use crate::recents::RecentOpenRouterModels;
use crate::text::strings_view;
use std::path::PathBuf;

verus! {

/// The app's state that the recent OpenRouter models touch.
pub struct App {
    /// The authoritative recents store.
    pub recent_openrouter_models: RecentOpenRouterModels,
    pub chat_widget: ChatWidget,
    /// The Codex home directory, where the recents are saved.
    pub codex_home: PathBuf,
}

fn clone_strings(v: &Vec<String>) -> (r: Vec<String>)
    ensures
        strings_view(r@) == strings_view(v@),
{
    let mut r: Vec<String> = Vec::new();
    let mut i: usize = 0;
    while i < v.len()
        invariant
            i <= v@.len(),
            strings_view(r@) == strings_view(v@.take(i as int)),
        decreases v@.len() - i,
    {
        let ghost before = r@;
        r.push(v[i].clone());
        assert(strings_view(r@) =~= strings_view(before).push(v@[i as int]@));
        assert(v@.take(i + 1) =~= v@.take(i as int).push(v@[i as int]));
        assert(strings_view(v@.take(i + 1)) =~= strings_view(v@.take(i as int)).push(v@[i as int]@));
        i = i + 1;
    }
    assert(v@.take(v@.len() as int) =~= v@);
    r
}

impl App {
    /// Report the outcome of saving the recents: a failed save becomes a chat
    /// error message, so that a failed write never silently loses the list.
    pub fn persist_recent_openrouter_models(&mut self, saved: Result<(), String>)
        ensures
            match saved {
                Ok(()) => final(self).chat_widget.error_messages == old(self).chat_widget.error_messages,
                Err(err) => final(self).chat_widget.error_messages@.len()
                    == old(self).chat_widget.error_messages@.len() + 1
                    && final(self).chat_widget.error_messages@.drop_last()
                    == old(self).chat_widget.error_messages@
                    && final(self).chat_widget.error_messages@.last()@
                    == "Failed to save recent OpenRouter models: "@ + err@,
            },
            final(self).recent_openrouter_models == old(self).recent_openrouter_models,
            final(self).chat_widget.recent_openrouter_models == old(self).chat_widget.recent_openrouter_models,
            final(self).chat_widget.bottom_pane == old(self).chat_widget.bottom_pane,
            final(self).codex_home == old(self).codex_home,
    {
        match saved {
            Ok(()) => {},
            Err(err) => {
                let message = String::from_str("Failed to save recent OpenRouter models: ").concat(
                    err.as_str(),
                );
                self.chat_widget.add_error_message(message);
                assert(self.chat_widget.error_messages@.drop_last() =~= old(self).chat_widget.error_messages@);
            },
        }
    }

    /// Push the store's slugs to the widget, so that the `/model` popup shows
    /// the current list.
    pub fn sync_recent_openrouter_models_to_widget(&mut self)
        ensures
            strings_view(final(self).chat_widget.recent_openrouter_models@)
                == old(self).recent_openrouter_models@,
            final(self).recent_openrouter_models == old(self).recent_openrouter_models,
            final(self).chat_widget.bottom_pane == old(self).chat_widget.bottom_pane,
            final(self).chat_widget.error_messages == old(self).chat_widget.error_messages,
            final(self).codex_home == old(self).codex_home,
    {
        let snapshot = clone_strings(&self.recent_openrouter_models.recents);
        self.chat_widget.set_recent_openrouter_models(snapshot);
    }
}

} // verus!
