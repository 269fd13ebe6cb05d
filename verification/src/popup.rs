//! The recent OpenRouter models rows of the `/model` popup: the drill-down
//! row, the list of recent slugs, and the per-slug menu to switch to a slug
//! or remove it, together with the app glue that keeps the list in sync.

use vstd::prelude::*;
use crate::recents::{law_record_puts_slug_first, law_remove_drops_only_slug, recorded, without};
use crate::text::{decimal, decimal_string, opt_string_view, strings_view};

verus! {

/// View id of the list of recent slugs.
pub const RECENT_OPENROUTER_VIEW_ID: &'static str = "recent-openrouter-models";

/// View id of the per-slug menu.
pub const OPENROUTER_MODEL_MENU_VIEW_ID: &'static str = "openrouter-model-menu";

/// An event that a selected row sends to the app.
pub enum AppEvent {
    OpenRecentOpenRouterModelsPopup,
    OpenRecentOpenRouterModelMenu { model: String },
    SwitchToOpenRouterModel { model: String },
    RemoveRecentOpenRouterModel { model: String },
}

/// An app event as plain values.
pub enum AppEventView {
    OpenRecentOpenRouterModelsPopup,
    OpenRecentOpenRouterModelMenu(Seq<char>),
    SwitchToOpenRouterModel(Seq<char>),
    RemoveRecentOpenRouterModel(Seq<char>),
}

impl View for AppEvent {
    type V = AppEventView;

    open spec fn view(&self) -> AppEventView {
        match self {
            AppEvent::OpenRecentOpenRouterModelsPopup => AppEventView::OpenRecentOpenRouterModelsPopup,
            AppEvent::OpenRecentOpenRouterModelMenu { model } => AppEventView::OpenRecentOpenRouterModelMenu(model@),
            AppEvent::SwitchToOpenRouterModel { model } => AppEventView::SwitchToOpenRouterModel(model@),
            AppEvent::RemoveRecentOpenRouterModel { model } => AppEventView::RemoveRecentOpenRouterModel(model@),
        }
    }
}

/// How a header line is drawn.
#[derive(Debug, Clone, Copy, PartialEq, Eq, Structural)]
pub enum LineStyle {
    Bold,
    Dim,
}

/// The footer hint of a popup.
#[derive(Debug, Clone, Copy, PartialEq, Eq, Structural)]
pub enum FooterHint {
    /// The standard key hint line of selection popups.
    StandardPopupHint,
}

/// One line of a popup header.
pub struct HeaderLine {
    pub text: String,
    pub style: LineStyle,
}

/// One row of a selection popup.
pub struct SelectionItem {
    pub name: String,
    pub description: Option<String>,
    /// The events that selecting the row sends, in order.
    pub actions: Vec<AppEvent>,
    pub dismiss_on_select: bool,
    pub is_disabled: bool,
}

/// A selection row as plain values.
pub struct SelectionItemView {
    pub name: Seq<char>,
    pub description: Option<Seq<char>>,
    pub actions: Seq<AppEventView>,
    pub dismiss_on_select: bool,
    pub is_disabled: bool,
}

impl View for SelectionItem {
    type V = SelectionItemView;

    open spec fn view(&self) -> SelectionItemView {
        SelectionItemView {
            name: self.name@,
            description: opt_string_view(self.description),
            actions: self.actions@.map_values(|e: AppEvent| e@),
            dismiss_on_select: self.dismiss_on_select,
            is_disabled: self.is_disabled,
        }
    }
}

/// What a selection popup shows.
pub struct SelectionViewParams {
    pub view_id: Option<String>,
    pub footer_hint: Option<FooterHint>,
    pub header: Vec<HeaderLine>,
    pub items: Vec<SelectionItem>,
}

/// A selection popup as plain values.
pub struct SelectionViewParamsView {
    pub view_id: Option<Seq<char>>,
    pub footer_hint: Option<FooterHint>,
    pub header: Seq<(Seq<char>, LineStyle)>,
    pub items: Seq<SelectionItemView>,
}

impl View for SelectionViewParams {
    type V = SelectionViewParamsView;

    open spec fn view(&self) -> SelectionViewParamsView {
        SelectionViewParamsView {
            view_id: opt_string_view(self.view_id),
            footer_hint: self.footer_hint,
            header: self.header@.map_values(|l: HeaderLine| (l.text@, l.style)),
            items: self.items@.map_values(|i: SelectionItem| i@),
        }
    }
}

/// A change to the popup stack that the bottom pane is asked to make.
pub enum PaneRequest {
    /// Push a new selection popup.
    Show(SelectionViewParams),
    /// Replace the active popups whose view id is one of `view_ids` with
    /// `params`; nothing happens when none of them is active.
    ReplaceActive { view_ids: Vec<String>, params: SelectionViewParams },
}

/// A pane request as plain values.
pub enum PaneRequestView {
    Show(SelectionViewParamsView),
    ReplaceActive(Seq<Seq<char>>, SelectionViewParamsView),
}

impl View for PaneRequest {
    type V = PaneRequestView;

    open spec fn view(&self) -> PaneRequestView {
        match self {
            PaneRequest::Show(p) => PaneRequestView::Show(p@),
            PaneRequest::ReplaceActive { view_ids, params } => PaneRequestView::ReplaceActive(
                strings_view(view_ids@),
                params@,
            ),
        }
    }
}

/// The bottom pane, as the requests made of it that the host has yet to carry out.
pub struct BottomPane {
    pub requests: Vec<PaneRequest>,
}

/// The requests of a bottom pane as plain values.
pub open spec fn requests_view(v: Seq<PaneRequest>) -> Seq<PaneRequestView> {
    v.map_values(|r: PaneRequest| r@)
}

impl BottomPane {
    /// Ask for `params` to be shown on top of the popup stack.
    pub fn show_selection_view(&mut self, params: SelectionViewParams)
        ensures
            requests_view(final(self).requests@) == requests_view(old(self).requests@).push(
                PaneRequestView::Show(params@),
            ),
    {
        let ghost p = params@;
        self.requests.push(PaneRequest::Show(params));
        assert(requests_view(self.requests@) =~= requests_view(old(self).requests@).push(
            PaneRequestView::Show(p),
        ));
    }

    /// Ask for the active popups with one of `view_ids` to be replaced by `params`.
    pub fn replace_active_views_with_selection_view(
        &mut self,
        view_ids: Vec<String>,
        params: SelectionViewParams,
    )
        ensures
            requests_view(final(self).requests@) == requests_view(old(self).requests@).push(
                PaneRequestView::ReplaceActive(strings_view(view_ids@), params@),
            ),
    {
        let ghost req = PaneRequestView::ReplaceActive(strings_view(view_ids@), params@);
        self.requests.push(PaneRequest::ReplaceActive { view_ids, params });
        assert(requests_view(self.requests@) =~= requests_view(old(self).requests@).push(req));
    }
}

/// The drill-down row of the `/model` popup for `recents`: none when there
/// are no recents, else a row that opens the recents list and tells how many
/// slugs are saved.
pub open spec fn entry_item_of(recents: Seq<Seq<char>>) -> Option<SelectionItemView> {
    if recents.len() == 0 {
        None
    } else {
        Some(
            SelectionItemView {
                name: "Recent OpenRouter models"@,
                description: Some(
                    "Reuse or remove a previously typed slug ("@ + decimal(recents.len()) + " saved)."@,
                ),
                actions: seq![AppEventView::OpenRecentOpenRouterModelsPopup],
                dismiss_on_select: false,
                is_disabled: false,
            },
        )
    }
}

/// The row of the recents list for `slug`: selecting it opens that slug's menu.
pub open spec fn slug_row(slug: Seq<char>) -> SelectionItemView {
    SelectionItemView {
        name: slug,
        description: Some("Select to switch to or remove this slug."@),
        actions: seq![AppEventView::OpenRecentOpenRouterModelMenu(slug)],
        dismiss_on_select: false,
        is_disabled: false,
    }
}

/// The disabled row that stands in an empty recents list.
pub open spec fn placeholder_row() -> SelectionItemView {
    SelectionItemView {
        name: "No recent OpenRouter models yet."@,
        description: Some("Type a routed model id from the model menu to save it here."@),
        actions: Seq::empty(),
        dismiss_on_select: false,
        is_disabled: true,
    }
}

/// The rows of the recents list: one per slug, in order, or the placeholder.
pub open spec fn recents_rows(recents: Seq<Seq<char>>) -> Seq<SelectionItemView> {
    if recents.len() == 0 {
        seq![placeholder_row()]
    } else {
        recents.map_values(|s: Seq<char>| slug_row(s))
    }
}

/// The recents list popup for `recents`.
pub open spec fn recents_popup_of(recents: Seq<Seq<char>>) -> SelectionViewParamsView {
    SelectionViewParamsView {
        view_id: Some(RECENT_OPENROUTER_VIEW_ID@),
        footer_hint: Some(FooterHint::StandardPopupHint),
        header: seq![
            ("Recent OpenRouter models"@, LineStyle::Bold),
            ("Reuse a slug or remove one you no longer want."@, LineStyle::Dim),
        ],
        items: recents_rows(recents),
    }
}

/// The menu for `model`: a row that switches the session to it and a row
/// that removes it from the recents, both closing the menu.
pub open spec fn model_menu_of(model: Seq<char>) -> SelectionViewParamsView {
    SelectionViewParamsView {
        view_id: Some(OPENROUTER_MODEL_MENU_VIEW_ID@),
        footer_hint: Some(FooterHint::StandardPopupHint),
        header: seq![
            ("OpenRouter · "@ + model, LineStyle::Bold),
            ("Switch the session to this model, or remove it from recents."@, LineStyle::Dim),
        ],
        items: seq![
            SelectionItemView {
                name: "Switch to "@ + model,
                description: Some("Re-use this slug: switch the current session to OpenRouter."@),
                actions: seq![AppEventView::SwitchToOpenRouterModel(model)],
                dismiss_on_select: true,
                is_disabled: false,
            },
            SelectionItemView {
                name: "Remove from recents"@,
                description: Some("Drop this slug from the recent OpenRouter models list."@),
                actions: seq![AppEventView::RemoveRecentOpenRouterModel(model)],
                dismiss_on_select: true,
                is_disabled: false,
            },
        ],
    }
}

/// The recents list shows one row per recent slug, in the list's order, each
/// enabled, keeping the list open and opening that slug's menu; an empty list
/// shows the single disabled placeholder row, which does nothing, instead.
pub proof fn law_recents_rows_follow_recents(recents: Seq<Seq<char>>)
    ensures
        recents.len() == 0 ==> recents_rows(recents).len() == 1 && recents_rows(recents)[0].is_disabled
            && recents_rows(recents)[0].actions.len() == 0,
        recents.len() > 0 ==> recents_rows(recents).len() == recents.len(),
        forall|i: int|
            #![trigger recents[i]]
            0 <= i < recents.len() ==> recents_rows(recents)[i].name == recents[i]
                && recents_rows(recents)[i].actions == seq![
                AppEventView::OpenRecentOpenRouterModelMenu(recents[i])]
                && !recents_rows(recents)[i].is_disabled
                && !recents_rows(recents)[i].dismiss_on_select,
        recents_popup_of(recents).items == recents_rows(recents),
        recents_popup_of(recents).view_id == Some(RECENT_OPENROUTER_VIEW_ID@),
{
}

/// The `/model` popup offers the recents row exactly when there are recents,
/// and then, whatever their number, the row is enabled, keeps the popup open,
/// opens the recents list and tells how many slugs are saved.
pub proof fn law_entry_row_offered_with_recents(recents: Seq<Seq<char>>)
    ensures
        entry_item_of(recents) is Some <==> recents.len() > 0,
        recents.len() > 0 ==> {
            let item = entry_item_of(recents)->0;
            &&& !item.is_disabled
            &&& !item.dismiss_on_select
            &&& item.name == "Recent OpenRouter models"@
            &&& item.actions == seq![AppEventView::OpenRecentOpenRouterModelsPopup]
            &&& item.description == Some(
                "Reuse or remove a previously typed slug ("@ + decimal(recents.len()) + " saved)."@,
            )
        },
{
}

/// Right after a slug is recorded, the `/model` popup offers the recents row,
/// and the recents list shows the slug first.
pub proof fn law_recorded_slug_is_offered_first(list: Seq<Seq<char>>, slug: Seq<char>)
    ensures
        entry_item_of(recorded(list, slug)) is Some,
        recents_rows(recorded(list, slug))[0] == slug_row(slug),
{
    law_record_puts_slug_first(list, slug);
}

/// After a slug is removed, no row of the recents list opens its menu.
pub proof fn law_removed_slug_is_not_offered(list: Seq<Seq<char>>, slug: Seq<char>)
    ensures
        forall|i: int| 0 <= i < recents_rows(without(list, slug)).len() ==> #[trigger] recents_rows(
            without(list, slug),
        )[i].actions != seq![AppEventView::OpenRecentOpenRouterModelMenu(slug)],
{
    law_remove_drops_only_slug(list, slug);
    let w = without(list, slug);
    let rows = recents_rows(w);
    assert forall|i: int| 0 <= i < rows.len() implies #[trigger] rows[i].actions != seq![
        AppEventView::OpenRecentOpenRouterModelMenu(slug)] by {
        if w.len() == 0 {
            assert(rows[i].actions.len() == 0);
        } else {
            assert(w.contains(w[i]));
            assert(rows[i].actions[0] == AppEventView::OpenRecentOpenRouterModelMenu(w[i]));
            assert(seq![AppEventView::OpenRecentOpenRouterModelMenu(slug)][0]
                == AppEventView::OpenRecentOpenRouterModelMenu(slug));
        }
    }
}

/// The per-slug menu has exactly two rows, both enabled and both closing the
/// menu: the first switches the session to the slug, the second removes the
/// slug from the recents.
pub proof fn law_model_menu_targets_its_slug(model: Seq<char>)
    ensures
        model_menu_of(model).items.len() == 2,
        model_menu_of(model).view_id == Some(OPENROUTER_MODEL_MENU_VIEW_ID@),
        model_menu_of(model).items[0].name == "Switch to "@ + model,
        model_menu_of(model).items[0].actions == seq![AppEventView::SwitchToOpenRouterModel(model)],
        model_menu_of(model).items[1].name == "Remove from recents"@,
        model_menu_of(model).items[1].actions == seq![AppEventView::RemoveRecentOpenRouterModel(model)],
        model_menu_of(model).items[0].dismiss_on_select && model_menu_of(model).items[1].dismiss_on_select,
        !model_menu_of(model).items[0].is_disabled && !model_menu_of(model).items[1].is_disabled,
{
}

fn header_line(text: &str, style: LineStyle) -> (r: HeaderLine)
    ensures
        r.text@ == text@,
        r.style == style,
{
    HeaderLine { text: String::from_str(text), style }
}

fn footer_hint() -> (r: Option<FooterHint>)
    ensures
        r == Some(FooterHint::StandardPopupHint),
{
    Some(FooterHint::StandardPopupHint)
}

/// The chat widget's state behind the recent OpenRouter models rows.
pub struct ChatWidget {
    /// Display snapshot of the recents, synced from the app's store.
    pub recent_openrouter_models: Vec<String>,
    pub bottom_pane: BottomPane,
    /// Error messages added to the chat, oldest first.
    pub error_messages: Vec<String>,
}

impl ChatWidget {
    /// Replace the display snapshot of recent slugs.
    pub fn set_recent_openrouter_models(&mut self, recents: Vec<String>)
        ensures
            final(self).recent_openrouter_models == recents,
            final(self).bottom_pane == old(self).bottom_pane,
            final(self).error_messages == old(self).error_messages,
    {
        self.recent_openrouter_models = recents;
    }

    /// Add an error message to the chat.
    pub fn add_error_message(&mut self, message: String)
        ensures
            final(self).error_messages@ == old(self).error_messages@.push(message),
            final(self).recent_openrouter_models == old(self).recent_openrouter_models,
            final(self).bottom_pane == old(self).bottom_pane,
    {
        self.error_messages.push(message);
    }

    /// The drill-down row shown in the `/model` popup, or none when there are
    /// no recents to surface.
    pub fn recent_openrouter_models_entry_item(&self) -> (r: Option<SelectionItem>)
        ensures
            match r {
                Some(item) => entry_item_of(strings_view(self.recent_openrouter_models@)) == Some(
                    item@,
                ),
                None => entry_item_of(strings_view(self.recent_openrouter_models@)) is None,
            },
    {
        let n = self.recent_openrouter_models.len();
        if n == 0 {
            return None;
        }
        let description = String::from_str("Reuse or remove a previously typed slug (").concat(
            decimal_string(n).as_str(),
        ).concat(" saved).");
        let mut actions: Vec<AppEvent> = Vec::new();
        actions.push(AppEvent::OpenRecentOpenRouterModelsPopup);
        let item = SelectionItem {
            name: String::from_str("Recent OpenRouter models"),
            description: Some(description),
            actions,
            dismiss_on_select: false,
            is_disabled: false,
        };
        assert(item@.actions =~= seq![AppEventView::OpenRecentOpenRouterModelsPopup]);
        Some(item)
    }

    /// The recents list: a row per slug that opens its menu, or a disabled
    /// placeholder row when there are none.
    pub fn build_recent_openrouter_models_popup_params(&self) -> (r: SelectionViewParams)
        ensures
            r@ == recents_popup_of(strings_view(self.recent_openrouter_models@)),
    {
        let ghost recents = strings_view(self.recent_openrouter_models@);
        let n = self.recent_openrouter_models.len();
        let mut items: Vec<SelectionItem> = Vec::new();
        let mut i: usize = 0;
        while i < n
            invariant
                n == self.recent_openrouter_models@.len(),
                recents == strings_view(self.recent_openrouter_models@),
                i <= n,
                items@.map_values(|it: SelectionItem| it@) == recents.take(i as int).map_values(
                    |s: Seq<char>| slug_row(s),
                ),
            decreases n - i,
        {
            let slug = &self.recent_openrouter_models[i];
            let mut actions: Vec<AppEvent> = Vec::new();
            actions.push(AppEvent::OpenRecentOpenRouterModelMenu { model: slug.clone() });
            let item = SelectionItem {
                name: slug.clone(),
                description: Some(String::from_str("Select to switch to or remove this slug.")),
                actions,
                dismiss_on_select: false,
                is_disabled: false,
            };
            assert(item@.actions =~= seq![AppEventView::OpenRecentOpenRouterModelMenu(slug@)]);
            assert(item@ == slug_row(recents[i as int]));
            let ghost before = items@;
            items.push(item);
            assert(items@.map_values(|it: SelectionItem| it@) =~= before.map_values(
                |it: SelectionItem| it@,
            ).push(slug_row(recents[i as int])));
            assert(recents.take(i + 1).map_values(|s: Seq<char>| slug_row(s)) =~= recents.take(
                i as int,
            ).map_values(|s: Seq<char>| slug_row(s)).push(slug_row(recents[i as int])));
            i = i + 1;
        }
        assert(recents.take(n as int) =~= recents);
        if n == 0 {
            let item = SelectionItem {
                name: String::from_str("No recent OpenRouter models yet."),
                description: Some(
                    String::from_str("Type a routed model id from the model menu to save it here."),
                ),
                actions: Vec::new(),
                dismiss_on_select: false,
                is_disabled: true,
            };
            assert(item@.actions =~= Seq::<AppEventView>::empty());
            items.push(item);
            assert(items@.map_values(|it: SelectionItem| it@) =~= seq![placeholder_row()]);
        }
        let mut header: Vec<HeaderLine> = Vec::new();
        header.push(header_line("Recent OpenRouter models", LineStyle::Bold));
        header.push(header_line("Reuse a slug or remove one you no longer want.", LineStyle::Dim));
        let r = SelectionViewParams {
            view_id: Some(String::from_str(RECENT_OPENROUTER_VIEW_ID)),
            footer_hint: footer_hint(),
            header,
            items,
        };
        assert(r@.header =~= seq![
            ("Recent OpenRouter models"@, LineStyle::Bold),
            ("Reuse a slug or remove one you no longer want."@, LineStyle::Dim),
        ]);
        r
    }

    /// Open the recents list on top of the popup stack.
    pub fn open_recent_openrouter_models_popup(&mut self)
        ensures
            requests_view(final(self).bottom_pane.requests@) == requests_view(
                old(self).bottom_pane.requests@,
            ).push(PaneRequestView::Show(recents_popup_of(strings_view(old(self).recent_openrouter_models@)))),
            final(self).recent_openrouter_models == old(self).recent_openrouter_models,
            final(self).error_messages == old(self).error_messages,
    {
        let params = self.build_recent_openrouter_models_popup_params();
        self.bottom_pane.show_selection_view(params);
    }

    /// Rebuild the recents list and swap it in place of the list or the
    /// per-slug menu, whichever is active, without stacking a second popup.
    pub fn refresh_recent_openrouter_models_popup(&mut self)
        ensures
            requests_view(final(self).bottom_pane.requests@) == requests_view(
                old(self).bottom_pane.requests@,
            ).push(
                PaneRequestView::ReplaceActive(
                    seq![RECENT_OPENROUTER_VIEW_ID@, OPENROUTER_MODEL_MENU_VIEW_ID@],
                    recents_popup_of(strings_view(old(self).recent_openrouter_models@)),
                ),
            ),
            final(self).recent_openrouter_models == old(self).recent_openrouter_models,
            final(self).error_messages == old(self).error_messages,
    {
        let params = self.build_recent_openrouter_models_popup_params();
        let mut view_ids: Vec<String> = Vec::new();
        view_ids.push(String::from_str(RECENT_OPENROUTER_VIEW_ID));
        view_ids.push(String::from_str(OPENROUTER_MODEL_MENU_VIEW_ID));
        assert(strings_view(view_ids@) =~= seq![
            RECENT_OPENROUTER_VIEW_ID@,
            OPENROUTER_MODEL_MENU_VIEW_ID@,
        ]);
        self.bottom_pane.replace_active_views_with_selection_view(view_ids, params);
    }

    /// Open the menu for `model`, with a "Switch" and a "Remove" row.
    pub fn open_recent_openrouter_model_menu(&mut self, model: String)
        ensures
            requests_view(final(self).bottom_pane.requests@) == requests_view(
                old(self).bottom_pane.requests@,
            ).push(PaneRequestView::Show(model_menu_of(model@))),
            final(self).recent_openrouter_models == old(self).recent_openrouter_models,
            final(self).error_messages == old(self).error_messages,
    {
        let mut switch_actions: Vec<AppEvent> = Vec::new();
        switch_actions.push(AppEvent::SwitchToOpenRouterModel { model: model.clone() });
        let mut remove_actions: Vec<AppEvent> = Vec::new();
        remove_actions.push(AppEvent::RemoveRecentOpenRouterModel { model: model.clone() });
        let mut header: Vec<HeaderLine> = Vec::new();
        header.push(
            HeaderLine {
                text: String::from_str("OpenRouter · ").concat(model.as_str()),
                style: LineStyle::Bold,
            },
        );
        header.push(
            header_line(
                "Switch the session to this model, or remove it from recents.",
                LineStyle::Dim,
            ),
        );
        let mut items: Vec<SelectionItem> = Vec::new();
        let switch_item = SelectionItem {
            name: String::from_str("Switch to ").concat(model.as_str()),
            description: Some(
                String::from_str("Re-use this slug: switch the current session to OpenRouter."),
            ),
            actions: switch_actions,
            dismiss_on_select: true,
            is_disabled: false,
        };
        assert(switch_item@.actions =~= seq![AppEventView::SwitchToOpenRouterModel(model@)]);
        items.push(switch_item);
        let remove_item = SelectionItem {
            name: String::from_str("Remove from recents"),
            description: Some(
                String::from_str("Drop this slug from the recent OpenRouter models list."),
            ),
            actions: remove_actions,
            dismiss_on_select: true,
            is_disabled: false,
        };
        assert(remove_item@.actions =~= seq![AppEventView::RemoveRecentOpenRouterModel(model@)]);
        items.push(remove_item);
        let params = SelectionViewParams {
            view_id: Some(String::from_str(OPENROUTER_MODEL_MENU_VIEW_ID)),
            footer_hint: footer_hint(),
            header,
            items,
        };
        assert(params@.header =~= model_menu_of(model@).header);
        assert(params@.items =~= model_menu_of(model@).items);
        self.bottom_pane.show_selection_view(params);
    }
}

} // verus!
