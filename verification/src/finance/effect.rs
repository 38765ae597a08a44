//! What the plugin asks its host to change: rows of its data, and announcements.
use vstd::prelude::*;

use crate::finance::record::{
    key_of_node, law_node_keys_are_distinct, node_key, node_of_key, Config, Fx, FxStatus, NodeFin,
    NodeView,
};
use crate::json::{
    has, no_fields, nullable, rates_view, text_or_null, width, Fields, Json, JsonView,
};
use crate::text::opt_text;

verus! {

/// An announcement that a node expires soon.
#[derive(Debug)]
pub struct ExpirySoon {
    pub node_id: i64,
    pub name: String,
    pub expires_at: Option<String>,
    pub days_left: i64,
    pub threshold_days: i64,
}

/// A change that the host is to make.
#[derive(Debug)]
pub enum Effect {
    SaveNode { id: i64, node: NodeFin },
    DeleteNode { id: i64 },
    SaveConfig(Config),
    SaveFx(Fx),
    SaveFxStatus(FxStatus),
    DropFxStatus,
    Announce(ExpirySoon),
    /// A line for the host's log: level 1 informs, level 2 warns, level 3 reports an error.
    Log { level: i32, words: String },
}

/// An announcement in the abstract.
pub ghost struct ExpirySoonView {
    pub node_id: i64,
    pub name: Seq<char>,
    pub expires_at: Option<Seq<char>>,
    pub days_left: i64,
    pub threshold_days: i64,
}

/// Settings in the abstract.
pub ghost struct ConfigView {
    pub target_currency: Seq<char>,
    pub threshold_days: i64,
    pub imported: bool,
}

/// Exchange rates in the abstract.
pub ghost struct FxView {
    pub base: Seq<char>,
    pub rates: Seq<(Seq<char>, u64)>,
    pub fetched_at: i64,
}

/// A failure to fetch the rates in the abstract.
pub ghost struct FxStatusView {
    pub reason: Seq<char>,
    pub attempted_at: i64,
}

/// A change in the abstract.
pub ghost enum EffectView {
    SaveNode { id: i64, node: NodeView },
    DeleteNode { id: i64 },
    SaveConfig(ConfigView),
    SaveFx(FxView),
    SaveFxStatus(FxStatusView),
    DropFxStatus,
    Announce(ExpirySoonView),
    Log { level: i32, words: Seq<char> },
}

impl View for ExpirySoon {
    type V = ExpirySoonView;

    open spec fn view(&self) -> ExpirySoonView {
        ExpirySoonView {
            node_id: self.node_id,
            name: self.name@,
            expires_at: opt_text(self.expires_at),
            days_left: self.days_left,
            threshold_days: self.threshold_days,
        }
    }
}

impl View for Config {
    type V = ConfigView;

    open spec fn view(&self) -> ConfigView {
        ConfigView {
            target_currency: self.target_currency@,
            threshold_days: self.threshold_days,
            imported: self.imported,
        }
    }
}

impl View for Fx {
    type V = FxView;

    open spec fn view(&self) -> FxView {
        FxView { base: self.base@, rates: rates_view(self.rates@), fetched_at: self.fetched_at }
    }
}

impl View for FxStatus {
    type V = FxStatusView;

    open spec fn view(&self) -> FxStatusView {
        FxStatusView { reason: self.reason@, attempted_at: self.attempted_at }
    }
}

impl View for Effect {
    type V = EffectView;

    open spec fn view(&self) -> EffectView {
        match self {
            Effect::SaveNode { id, node } => EffectView::SaveNode { id: *id, node: node@ },
            Effect::DeleteNode { id } => EffectView::DeleteNode { id: *id },
            Effect::SaveConfig(config) => EffectView::SaveConfig(config@),
            Effect::SaveFx(fx) => EffectView::SaveFx(fx@),
            Effect::SaveFxStatus(status) => EffectView::SaveFxStatus(status@),
            Effect::DropFxStatus => EffectView::DropFxStatus,
            Effect::Announce(notice) => EffectView::Announce(notice@),
            Effect::Log { level, words } => EffectView::Log { level: *level, words: words@ },
        }
    }
}

/// Changes in the abstract.
pub open spec fn effects_view(list: Seq<Effect>) -> Seq<EffectView> {
    list.map_values(|e: Effect| e@)
}

/// No changes at all, to which those of a step are added.
pub open spec fn no_effects() -> Seq<EffectView> {
    Seq::empty()
}

/// Appends a change.
pub fn push_effect(list: &mut Vec<Effect>, effect: Effect)
    ensures
        effects_view(final(list)@) == effects_view(old(list)@).push(effect@),
{
    list.push(effect);
    assert(effects_view(list@) == effects_view(old(list)@).push(effect@));
}

/// Appends changes.
pub fn push_effects(list: &mut Vec<Effect>, more: Vec<Effect>)
    ensures
        effects_view(final(list)@) == effects_view(old(list)@) + effects_view(more@),
{
    let mut more = more;
    let ghost added = more@;
    list.append(&mut more);
    assert(effects_view(list@) == effects_view(old(list)@) + effects_view(added));
}

/// No changes at all.
pub fn nothing() -> (r: Vec<Effect>)
    ensures
        effects_view(r@) == no_effects(),
{
    let list: Vec<Effect> = Vec::new();
    assert(effects_view(list@) == no_effects());
    list
}

/// One change.
pub fn only(effect: Effect) -> (r: Vec<Effect>)
    ensures
        effects_view(r@) == no_effects().push(effect@),
{
    let mut list = nothing();
    push_effect(&mut list, effect);
    list
}

/// A line for the log, alone.
pub open spec fn logged(level: i32, words: Seq<char>) -> Seq<EffectView> {
    no_effects().push(EffectView::Log { level, words })
}

/// A line for the log, alone.
pub fn log(level: i32, words: &str) -> (r: Vec<Effect>)
    ensures
        effects_view(r@) == logged(level, words@),
{
    only(Effect::Log { level, words: words.to_owned() })
}

/// Whether nothing is changed, but for lines in the log.
pub open spec fn only_logs(effects: Seq<EffectView>) -> bool {
    forall|k: int| 0 <= k < effects.len() ==> #[trigger] effects[k] is Log
}

impl EffectView {
    /// The key of the row that the change is to, if it is to one.
    pub open spec fn row(self) -> Option<Seq<char>> {
        match self {
            EffectView::SaveNode { id, .. } => Some(key_of_node(id as int)),
            EffectView::DeleteNode { id } => Some(key_of_node(id as int)),
            EffectView::SaveConfig(_) => Some("config"@),
            EffectView::SaveFx(_) => Some("fx"@),
            EffectView::SaveFxStatus(_) => Some("fx_status"@),
            EffectView::DropFxStatus => Some("fx_status"@),
            EffectView::Announce(_) => None,
            EffectView::Log { .. } => None,
        }
    }
}

impl Effect {
    /// The key of the row that the change is to, if it is to one.
    pub fn key(&self) -> (r: Option<String>)
        ensures
            opt_text(r) == self@.row(),
    {
        match self {
            Effect::SaveNode { id, .. } => Some(node_key(*id)),
            Effect::DeleteNode { id } => Some(node_key(*id)),
            Effect::SaveConfig(_) => Some("config".to_owned()),
            Effect::SaveFx(_) => Some("fx".to_owned()),
            Effect::SaveFxStatus(_) => Some("fx_status".to_owned()),
            Effect::DropFxStatus => Some("fx_status".to_owned()),
            Effect::Announce(_) => None,
            Effect::Log { .. } => None,
        }
    }
}

/// Saving or deleting a node's record never touches the settings, the rates or the failure.
pub proof fn law_records_have_rows_of_their_own(id: i64)
    ensures
        key_of_node(id as int) != "config"@,
        key_of_node(id as int) != "fx"@,
        key_of_node(id as int) != "fx_status"@,
{
    reveal_strlit("node:");
    reveal_strlit("config");
    reveal_strlit("fx");
    reveal_strlit("fx_status");
    assert(key_of_node(id as int)[0] == 'n');
}

/// What an announcement says.
pub open spec fn payload_view(notice: ExpirySoonView) -> JsonView {
    JsonView::Object(
        no_fields().push(("node_id"@, JsonView::Int(notice.node_id as int))).push(
            ("name"@, JsonView::Text(notice.name)),
        ).push(("expires_at"@, nullable(notice.expires_at))).push(
            ("days_left"@, JsonView::Int(notice.days_left as int)),
        ).push(("threshold_days"@, JsonView::Int(notice.threshold_days as int))),
    )
}

impl ExpirySoon {
    /// The name of the event.
    pub fn event(&self) -> (r: String)
        ensures
            r@ == "plugin_expiry_soon"@,
    {
        "plugin_expiry_soon".to_owned()
    }

    /// What the announcement says.
    pub fn payload(&self) -> (r: Json)
        ensures
            r@ == payload_view(self@),
    {
        Fields::new().with("node_id", Json::Int(self.node_id)).with(
            "name",
            Json::Text(self.name.clone()),
        ).with("expires_at", text_or_null(&self.expires_at)).with(
            "days_left",
            Json::Int(self.days_left),
        ).with("threshold_days", Json::Int(self.threshold_days)).done()
    }
}

/// An announcement tells each of its parts under the part's own name.
pub proof fn law_announcements_are_told_by_name(notice: ExpirySoonView)
    ensures
        ({
            let told = payload_view(notice);
            &&& width(told) == 5
            &&& has(told, "node_id"@, JsonView::Int(notice.node_id as int))
            &&& has(told, "name"@, JsonView::Text(notice.name))
            &&& has(
                told,
                "expires_at"@,
                match notice.expires_at {
                    Some(date) => JsonView::Text(date),
                    None => JsonView::Null,
                },
            )
            &&& has(told, "days_left"@, JsonView::Int(notice.days_left as int))
            &&& has(told, "threshold_days"@, JsonView::Int(notice.threshold_days as int))
        }),
{
    if let JsonView::Object(fields) = payload_view(notice) {
        assert(fields[0] == ("node_id"@, JsonView::Int(notice.node_id as int)));
        assert(fields[1] == ("name"@, JsonView::Text(notice.name)));
        assert(fields[2] == ("expires_at"@, nullable(notice.expires_at)));
        assert(fields[3] == ("days_left"@, JsonView::Int(notice.days_left as int)));
        assert(fields[4] == ("threshold_days"@, JsonView::Int(notice.threshold_days as int)));
    }
}

/// A change to a record goes to the row of its own node, and every other change to the row of what
/// it changes. Announcements and lines in the log go to none.
pub proof fn law_changes_go_to_their_rows(effect: EffectView)
    ensures
        effect matches EffectView::SaveNode { id, .. } ==> (effect.row() matches Some(key)
            && node_of_key(key) == Some(id)),
        effect matches EffectView::DeleteNode { id } ==> (effect.row() matches Some(key)
            && node_of_key(key) == Some(id)),
        effect is SaveConfig ==> effect.row() == Some("config"@),
        effect is SaveFx ==> effect.row() == Some("fx"@),
        effect is SaveFxStatus || effect is DropFxStatus ==> effect.row() == Some("fx_status"@),
        effect is Announce || effect is Log ==> effect.row() is None,
{
    if let EffectView::SaveNode { id, .. } = effect {
        law_node_keys_are_distinct(id, id);
    }
    if let EffectView::DeleteNode { id } = effect {
        law_node_keys_are_distinct(id, id);
    }
}

} // verus!
