//! What the plugin promises as a whole, whatever its host answers.
use vstd::prelude::*;

use crate::calendar::Date;
use crate::finance::action::{edited, Edit, RequestView};
use crate::finance::effect::{effects_view, no_effects, only_logs, EffectView};
use crate::finance::event::{response, NodeEvent};
use crate::finance::expiry::scan;
use crate::finance::page::{page, PageView};
use crate::finance::rates::failure_of;
use crate::finance::record::{
    day_at, nodes_view, records_in, Config, Edition, NodeFin, NodeView, Row,
};
use crate::finance::roster::{aligned, alignment, HostNode};
use crate::finance::session::{
    begins_event, follows, heard, loaded, online_in, plus_size, serves, sweep_reply, toast_view, up,
    Answer, Ask, Errand, Purpose, Sight, Stage, Step, Turn, Want,
};
use crate::finance::takeover::{
    answered, entries_view, named, online_ids, stale, EntryView, HostEntry,
};
use crate::json::{has, rates_under, toasted, width, JsonView};

verus! {

/// The number of times that rates can still be fetched for a page.
pub open spec fn fetches_for(want: Want) -> nat {
    if want.fetch {
        1
    } else {
        0
    }
}

/// The number of times that rates can still be fetched from a stage on.
pub open spec fn fetches_left(stage: Stage) -> nat {
    match stage {
        Stage::TickConfig | Stage::TickThreshold { .. } => 1,
        Stage::ImportClock { errand, .. }
        | Stage::ImportRecords { errand, .. }
        | Stage::ImportHosts { errand, .. } => match errand {
            Errand::Tick => 1,
            Errand::Page { want } => fetches_for(want),
        },
        Stage::PageConfig { want }
        | Stage::PageClock { want, .. }
        | Stage::PageRecords { want, .. }
        | Stage::PageHosts { want, .. } => fetches_for(want),
        Stage::PageFx { sight } => fetches_for(sight.want),
        Stage::SetCurrency { .. } | Stage::Refresh => 1,
        _ => 0,
    }
}

/// Whether a step asks for rates.
pub open spec fn asks_rates(s: Step) -> bool {
    s.turn matches Turn::Ask { ask: Ask::Rates { .. }, .. }
}

/// Rates are fetched at most once in a run, and never where no fetch is left.
pub proof fn law_rates_are_fetched_at_most_once(
    edition: Edition,
    stage: Stage,
    answer: Answer,
    s: Step,
)
    requires
        follows(edition, stage, answer, s),
    ensures
        s.turn matches Turn::Ask { stage: next, .. } ==> fetches_left(next) + (if asks_rates(s) {
            1nat
        } else {
            0nat
        }) <= fetches_left(stage),
{
}

/// Saving a node, and every request that is not about rates, fetches none.
pub proof fn law_saving_fetches_nothing(edition: Edition, request: RequestView, s: Step)
    requires
        serves(edition, s, request),
        request is SaveNode || request is Other,
    ensures
        !asks_rates(s),
        s.turn matches Turn::Ask { stage, .. } && fetches_left(stage) == 0,
{
}

/// Opening the page fetches rates only where the cache has none.
pub proof fn law_a_page_with_rates_fetches_nothing(
    edition: Edition,
    stage: Stage,
    answer: Answer,
    s: Step,
)
    requires
        follows(edition, stage, answer, s),
        stage is PageFx,
        answer matches Answer::Fx(fx) && fx is Some,
    ensures
        !asks_rates(s),
        s.turn matches Turn::Ask { stage: next, .. } && fetches_left(next) == 0,
{
}

/// Opening the page fetches rates where the cache has none and a fetch is allowed.
pub proof fn law_a_page_without_rates_fetches_them(
    edition: Edition,
    stage: Stage,
    answer: Answer,
    s: Step,
)
    requires
        follows(edition, stage, answer, s),
        stage matches Stage::PageFx { sight } && sight.want.fetch,
        answer matches Answer::Fx(fx) && fx is None,
    ensures
        asks_rates(s),
        s.turn matches Turn::Ask { stage: next, .. } && fetches_left(next) == 0,
{
}

/// How much of a run is left: first by its part, then by its place in that part.
pub open spec fn part_of_run(stage: Stage) -> nat {
    match stage {
        Stage::SweepHosts => 2,
        Stage::SweepRecords { .. } => 1,
        _ => 0,
    }
}

/// The place of a stage in its part of a run, counted from the end.
pub open spec fn place_in_run(stage: Stage) -> int {
    match stage {
        Stage::PageSums { .. } => 1,
        Stage::PageThreshold { .. } => 2,
        Stage::PageStatus { .. } => 3,
        Stage::PageFxAgain { .. } => 4,
        Stage::FetchClock { purpose, .. } => match purpose {
            Purpose::Tick { .. } => 3,
            Purpose::Page { .. } => 5,
            _ => 16,
        },
        Stage::FetchRates { purpose, .. } => match purpose {
            Purpose::Tick { .. } => 4,
            Purpose::Page { .. } => 6,
            _ => 17,
        },
        Stage::PageFx { .. } => 7,
        Stage::PageHosts { .. } => 8,
        Stage::PageRecords { .. } => 9,
        Stage::PageClock { .. } => 10,
        Stage::ImportHosts { .. } => 10,
        Stage::ImportRecords { .. } => 11,
        Stage::ImportClock { .. } => 12,
        Stage::PageConfig { .. } => 13,
        Stage::RefreshFx { .. } => 14,
        Stage::SaveNode { .. } => 14,
        Stage::RefreshStatus => 15,
        Stage::SetCurrency { .. } => 18,
        Stage::Refresh => 18,
        Stage::TickHosts { .. } => 1,
        Stage::TickRecords { .. } => 2,
        Stage::TickThreshold { .. } => 5,
        Stage::TickConfig => 13,
        Stage::EventClock { .. } => 1,
        Stage::EventNode { .. } => 2,
        Stage::SweepSize { ids, at, .. } => ids@.len() - at,
        _ => 0,
    }
}

/// Every run ends: each answer brings it closer to its end.
pub proof fn law_every_run_ends(edition: Edition, stage: Stage, answer: Answer, s: Step)
    requires
        follows(edition, stage, answer, s),
    ensures
        s.turn matches Turn::Ask { stage: next, .. } ==> part_of_run(next) < part_of_run(stage) || (
        part_of_run(next) == part_of_run(stage) && 0 <= place_in_run(next) < place_in_run(stage)),
{
}

/// Records that cannot be read are never taken for records that are not there: that is logged,
/// nothing is changed, and the host's nodes are not even asked for.
pub proof fn law_unreadable_records_are_left_alone(stage: Stage, answer: Answer, s: Step)
    requires
        follows(Edition::Reconciling, stage, answer, s),
        stage is TickRecords || stage is PageRecords,
        answer matches Answer::Records(rows) && rows is None,
    ensures
        only_logs(effects_view(s.effects@)),
        effects_view(s.effects@).len() == 1,
        !(s.turn matches Turn::Ask { ask: Ask::Hosts, .. }),
{
}

/// Host's nodes that cannot be read, be it for an error or for bytes that are no list of nodes, are
/// never taken for nodes that are gone: a page changes nothing then, and a tick deletes no record.
pub proof fn law_unreadable_hosts_delete_nothing(stage: Stage, answer: Answer, s: Step, k: int)
    requires
        follows(Edition::Reconciling, stage, answer, s),
        stage is TickHosts || stage is PageHosts,
        answer matches Answer::Hosts { count, nodes } && heard(count as int, nodes) is None,
        0 <= k < s.effects@.len(),
    ensures
        stage is PageHosts ==> only_logs(effects_view(s.effects@)),
        !(effects_view(s.effects@)[k] is DeleteNode),
{
    if let Stage::TickHosts { threshold, day, known } = stage {
        lemma_scan_deletes_nothing(
            nodes_view(known@),
            Seq::empty(),
            day,
            threshold,
        );
    }
    assert(effects_view(s.effects@).len() == s.effects@.len());
}

/// In the importing edition too: without an answer of the host nothing is taken over and nothing
/// is swept.
pub proof fn law_unanswered_hosts_change_nothing(stage: Stage, answer: Answer, s: Step)
    requires
        follows(Edition::Importing, stage, answer, s),
        stage is ImportHosts || stage is SweepHosts,
        answer matches Answer::Entries { count, body } && answered(count as int, body@) is None,
    ensures
        only_logs(effects_view(s.effects@)),
        stage is SweepHosts ==> s.turn is Done,
        s.turn matches Turn::Ask { stage: Stage::PageRecords { config, .. }, .. } ==> config@
            == stage->ImportHosts_config@,
{
}

proof fn lemma_scan_deletes_nothing(
    nodes: Seq<(i64, NodeView)>,
    online: Seq<i64>,
    day: Date,
    threshold: i64,
)
    ensures
        forall|k: int|
            0 <= k < scan(
                Edition::Reconciling,
                nodes,
                online,
                day,
                threshold,
            ).len() ==> !(#[trigger] scan(
                Edition::Reconciling,
                nodes,
                online,
                day,
                threshold,
            )[k] is DeleteNode),
    decreases nodes.len(),
{
    if nodes.len() > 0 {
        lemma_scan_deletes_nothing(nodes.drop_last(), online, day, threshold);
    }
}

/// Fetching rates changes nothing but the rates and the word of their last failure.
pub proof fn law_fetching_changes_only_rates(
    edition: Edition,
    stage: Stage,
    answer: Answer,
    s: Step,
    k: int,
)
    requires
        follows(edition, stage, answer, s),
        stage is FetchRates || stage is FetchClock,
        0 <= k < s.effects@.len(),
    ensures
        effects_view(s.effects@)[k] is Log || effects_view(s.effects@)[k].row() == Some("fx"@)
            || effects_view(s.effects@)[k].row() == Some("fx_status"@),
{
    assert(effects_view(s.effects@).len() == s.effects@.len());
}

/// The host's nodes are taken over once: with settings that say so, neither a tick nor a page
/// begins to.
pub proof fn law_import_happens_once(edition: Edition, stage: Stage, answer: Answer, s: Step)
    requires
        follows(edition, stage, answer, s),
        stage is TickConfig || stage is PageConfig,
        answer matches Answer::Config(found) && found matches Some(config) && config.imported,
    ensures
        only_logs(effects_view(s.effects@)),
        !(s.turn matches Turn::Ask { stage: Stage::ImportClock { .. }, .. }),
{
}

/// A page is never made with changes to the records, but for those that align them with the host
/// or take its nodes over.
pub proof fn law_pages_change_records_only_to_align_them(
    edition: Edition,
    stage: Stage,
    answer: Answer,
    s: Step,
)
    requires
        follows(edition, stage, answer, s),
        stage is PageConfig || stage is PageClock || stage is PageRecords || stage is PageFx
            || stage is PageFxAgain || stage is PageStatus || stage is PageThreshold
            || stage is PageSums,
    ensures
        only_logs(effects_view(s.effects@)),
{
}

/// Whether an answer is one to a question.
pub open spec fn answers(edition: Edition, ask: Ask, answer: Answer) -> bool {
    match ask {
        Ask::Config => answer is Config,
        Ask::Threshold => answer matches Answer::Threshold { count, buffer } && count
            <= buffer@.len(),
        Ask::Clock => answer is Clock,
        Ask::Records => answer is Records,
        Ask::Hosts => match edition {
            Edition::Importing => answer is Entries,
            Edition::Reconciling => answer is Hosts,
        },
        Ask::Rates { .. } => answer is Rates,
        Ask::Fx => answer is Fx,
        Ask::FxStatus => answer is FxStatus,
        Ask::Node { .. } => answer is Node,
        Ask::Size { .. } => answer is Size,
        Ask::Sums { .. } => answer is Sums,
    }
}

/// Whether an edition comes through a stage.
pub open spec fn belongs(edition: Edition, stage: Stage) -> bool {
    match stage {
        Stage::ImportClock { .. }
        | Stage::ImportRecords { .. }
        | Stage::ImportHosts { .. }
        | Stage::SweepHosts
        | Stage::SweepRecords { .. }
        | Stage::SweepSize { .. } => edition == Edition::Importing,
        Stage::TickThreshold { .. }
        | Stage::PageHosts { .. }
        | Stage::PageThreshold { .. }
        | Stage::EventNode { .. }
        | Stage::EventClock { .. } => edition == Edition::Reconciling,
        _ => true,
    }
}

/// Whoever answers what is asked can go on: the next stage takes every answer to its question.
pub proof fn law_every_answer_is_taken(
    edition: Edition,
    stage: Stage,
    answer: Answer,
    s: Step,
    next_answer: Answer,
)
    requires
        belongs(edition, stage),
        follows(edition, stage, answer, s),
    ensures
        s.turn matches Turn::Ask { ask, stage: next } ==> belongs(edition, next) && (answers(
            edition,
            ask,
            next_answer,
        ) ==> next.takes(edition, next_answer)),
{
}

/// Whether a stage is one on the way to a page.
pub open spec fn makes_page(stage: Stage) -> bool {
    match stage {
        Stage::PageConfig { .. }
        | Stage::PageClock { .. }
        | Stage::PageRecords { .. }
        | Stage::PageHosts { .. }
        | Stage::PageFx { .. }
        | Stage::PageFxAgain { .. }
        | Stage::PageStatus { .. }
        | Stage::PageThreshold { .. }
        | Stage::PageSums { .. } => true,
        Stage::ImportClock { errand, .. }
        | Stage::ImportRecords { errand, .. }
        | Stage::ImportHosts { errand, .. } => errand is Page,
        Stage::FetchRates { purpose, .. } | Stage::FetchClock { purpose, .. } => purpose is Page,
        _ => false,
    }
}

/// The hint that goes with a page under way.
pub open spec fn hint_at(stage: Stage) -> Option<(Seq<char>, Seq<char>)> {
    match stage {
        Stage::PageConfig { want }
        | Stage::PageClock { want, .. }
        | Stage::PageRecords { want, .. }
        | Stage::PageHosts { want, .. } => toast_view(want.toast),
        Stage::PageFx { sight }
        | Stage::PageFxAgain { sight }
        | Stage::PageStatus { sight, .. }
        | Stage::PageThreshold { sight, .. } => toast_view(sight.want.toast),
        Stage::PageSums { toast, .. } => toast_view(toast),
        Stage::ImportClock { errand: Errand::Page { want }, .. }
        | Stage::ImportRecords { errand: Errand::Page { want }, .. }
        | Stage::ImportHosts { errand: Errand::Page { want }, .. } => toast_view(want.toast),
        Stage::FetchRates { purpose: Purpose::Page { sight }, .. }
        | Stage::FetchClock { purpose: Purpose::Page { sight }, .. } => toast_view(sight.want.toast),
        _ => None,
    }
}

/// A page with a hint, if there is one.
pub open spec fn hinted(page: JsonView, hint: Option<(Seq<char>, Seq<char>)>) -> JsonView {
    match hint {
        Some((kind, words)) => toasted(page, kind, words),
        None => page,
    }
}

/// A page that is begun is finished, and ends with the hint that it began with.
pub proof fn law_pages_end_with_their_hints(
    edition: Edition,
    stage: Stage,
    answer: Answer,
    s: Step,
)
    requires
        makes_page(stage),
        follows(edition, stage, answer, s),
    ensures
        match s.turn {
            Turn::Ask { stage: next, .. } => makes_page(next) && hint_at(next) == hint_at(stage),
            Turn::Done { reply } => reply matches Some(json) && exists|data: PageView|
                json@ == hinted(#[trigger] page(edition, data), hint_at(stage)),
        },
{
}

/// A save of a node without a record changes nothing and is answered with an error.
pub proof fn law_a_refused_save_changes_nothing(
    edition: Edition,
    stage: Stage,
    answer: Answer,
    s: Step,
)
    requires
        follows(edition, stage, answer, s),
        stage is SaveNode,
        answer matches Answer::Node(found) && found is None,
    ensures
        effects_view(s.effects@) == no_effects(),
        s.turn matches Turn::Ask { stage: next, .. } && makes_page(next) && hint_at(next) == Some(
            ("error"@, "节点记录不存在，未保存"@),
        ),
{
}

/// A save that names no node changes nothing. The reconciling edition answers it with an error.
pub proof fn law_a_save_without_a_node_changes_nothing(
    edition: Edition,
    request: RequestView,
    s: Step,
)
    requires
        serves(edition, s, request),
        request matches RequestView::SaveNode { id, .. } && id is None,
    ensures
        effects_view(s.effects@) == no_effects(),
        s.turn matches Turn::Ask { stage, .. } && makes_page(stage) && hint_at(stage)
            == match edition {
            Edition::Importing => None,
            Edition::Reconciling => Some(("error"@, "未指定要保存的节点"@)),
        },
{
}

// ---------------------------------------------------------------------------
// What requests do
// ---------------------------------------------------------------------------

/// Choosing a currency saves it and keeps the other settings, which are seven days and no nodes
/// taken over where none were saved before. The rates of that currency are fetched then.
pub proof fn law_a_chosen_currency_is_saved_and_fetched(
    edition: Edition,
    code: String,
    found: Option<Config>,
    s: Step,
)
    requires
        follows(edition, Stage::SetCurrency { value: Some(code) }, Answer::Config(found), s),
    ensures
        effects_view(s.effects@).len() == 2,
        effects_view(s.effects@)[0] matches EffectView::SaveConfig(saved) && saved.target_currency
            == code@ && match found {
            Some(c) => saved.threshold_days == c.threshold_days && saved.imported == c.imported,
            None => saved.threshold_days == 7 && !saved.imported,
        },
        effects_view(s.effects@)[1] is Log,
        s.turn matches Turn::Ask { ask: Ask::Rates { url }, stage: next } && url@
            == "https://api.frankfurter.dev/v1/latest?base="@ + code@ && (
        next matches Stage::FetchRates { target, purpose } && target@ == code@ && purpose
            == Purpose::SetCurrency),
{
}

/// A refresh fetches the rates of the currency in the settings, which is the yuan where none was
/// chosen, and changes nothing before that.
pub proof fn law_a_refresh_fetches_the_chosen_currency(
    edition: Edition,
    found: Option<Config>,
    s: Step,
)
    requires
        follows(edition, Stage::Refresh, Answer::Config(found), s),
    ensures
        only_logs(effects_view(s.effects@)),
        ({
            let wanted = match found {
                Some(c) => c.target_currency@,
                None => "CNY"@,
            };
            s.turn matches Turn::Ask { ask: Ask::Rates { url }, stage: next } && url@
                == "https://api.frankfurter.dev/v1/latest?base="@ + wanted && (
            next matches Stage::FetchRates { target, purpose } && target@ == wanted && purpose
                == Purpose::Refresh)
        }),
{
}

/// What comes after rates were fetched for a request: a page that says that the currency was
/// switched, or that the rates were refreshed; after a refresh that failed, the reason is looked up
/// and told, with whether there are older rates.
pub proof fn law_requests_about_rates_are_answered(
    edition: Edition,
    stage: Stage,
    answer: Answer,
    s: Step,
)
    requires
        follows(edition, stage, answer, s),
    ensures
        stage matches Stage::FetchClock { purpose, code, body, .. } ==> {
            let fresh = failure_of(code as int, rates_under(body@, "rates"@)) is None;
            &&& purpose is SetCurrency ==> (s.turn matches Turn::Ask { stage: next, .. }
                && makes_page(next) && hint_at(next) == Some(("success"@, "已切换币种"@)))
            &&& purpose is Refresh && fresh ==> (s.turn matches Turn::Ask { stage: next, .. }
                && makes_page(next) && hint_at(next) == Some(("success"@, "汇率已刷新"@)))
            &&& purpose is Refresh && !fresh ==> s.turn == (Turn::Ask {
                ask: Ask::FxStatus,
                stage: Stage::RefreshStatus,
            })
        },
        stage is RefreshStatus ==> (answer matches Answer::FxStatus(status) && s.turn == (
        Turn::Ask { ask: Ask::Fx, stage: Stage::RefreshFx { status } })),
        stage matches Stage::RefreshFx { status } ==> (answer matches Answer::Fx(fx)
            && s.turn matches Turn::Ask { stage: next, .. } && makes_page(next) && (
        hint_at(next) matches Some((kind, words)) && kind == "error"@ && words == match (
            status,
            fx,
        ) {
            (Some(f), Some(_)) => "汇率刷新失败，统计沿用最近一次缓存："@ + f.reason@,
            (Some(f), None) => "汇率刷新失败："@ + f.reason@ + "（尚未成功拉取过汇率，统计暂缺）"@,
            (None, _) => "汇率刷新失败"@,
        })),
{
}

/// After a fetch for a page the page goes on with what it shows: with the new rates, which are read
/// from where they were kept, or without any.
pub proof fn law_pages_go_on_after_fetching(
    edition: Edition,
    target: String,
    sight: Sight,
    code: i32,
    body: String,
    now: i64,
    s: Step,
)
    requires
        follows(
            edition,
            Stage::FetchClock { target, purpose: Purpose::Page { sight }, code, body },
            Answer::Clock(now),
            s,
        ),
    ensures
        s.turn == if failure_of(code as int, rates_under(body@, "rates"@)) is None {
            Turn::Ask { ask: Ask::Fx, stage: Stage::PageFxAgain { sight } }
        } else {
            Turn::Ask { ask: Ask::FxStatus, stage: Stage::PageStatus { sight, fx: None } }
        },
{
}

/// Rates are fetched once for what they are wanted for: the reply goes with the currency that was
/// asked for, and the clock is read before it is taken in.
pub proof fn law_replies_go_with_their_currency(
    edition: Edition,
    target: String,
    purpose: Purpose,
    code: i32,
    body: String,
    s: Step,
)
    requires
        follows(
            edition,
            Stage::FetchRates { target, purpose },
            Answer::Rates { code, body },
            s,
        ),
    ensures
        effects_view(s.effects@) == no_effects(),
        s.turn == (Turn::Ask {
            ask: Ask::Clock,
            stage: Stage::FetchClock { target, purpose, code, body },
        }),
{
}

/// New rates are kept under the currency that they were fetched for, with the moment that the clock
/// gave, whatever they were fetched for; and a failure with its reason and that moment.
pub proof fn law_fetched_rates_are_kept(
    edition: Edition,
    target: String,
    purpose: Purpose,
    code: i32,
    body: String,
    now: i64,
    s: Step,
)
    requires
        follows(
            edition,
            Stage::FetchClock { target, purpose, code, body },
            Answer::Clock(now),
            s,
        ),
    ensures
        ({
            let parsed = rates_under(body@, "rates"@);
            let effects = effects_view(s.effects@);
            match failure_of(code as int, parsed) {
                None => effects.len() >= 2 && (effects[0] matches EffectView::SaveFx(fx) && fx.base
                    == target@ && fx.fetched_at == now && parsed == Ok::<
                    Option<Seq<(Seq<char>, u64)>>,
                    Seq<char>,
                >(Some(fx.rates))) && effects[1] == EffectView::DropFxStatus,
                Some(reason) => effects.len() == 2 && effects[0] is Log && (
                effects[1] matches EffectView::SaveFxStatus(f) && f.reason == reason
                    && f.attempted_at == now),
            }
        }),
{
}

/// A save changes the record of the node that it names, by its edit and nothing else, and is
/// answered with a page that says so.
pub proof fn law_a_save_edits_its_node(
    edition: Edition,
    id: i64,
    edit: Edit,
    node: NodeFin,
    s: Step,
)
    requires
        follows(edition, Stage::SaveNode { id, edit }, Answer::Node(Some(node)), s),
    ensures
        effects_view(s.effects@) == seq![
            EffectView::SaveNode { id, node: edited(node@, edit@) },
        ],
        s.turn matches Turn::Ask { stage: next, .. } && makes_page(next) && hint_at(next) == Some(
            ("success"@, "已保存"@),
        ) && fetches_left(next) == 0,
{
}

/// A request is begun as what it is: a save asks for the record of its own node, and a choice of a
/// currency carries that currency.
pub proof fn law_requests_are_begun(edition: Edition, request: RequestView, s: Step)
    requires
        serves(edition, s, request),
    ensures
        effects_view(s.effects@) == no_effects(),
        request matches RequestView::SaveNode { id: Some(id), edit } ==> (s.turn matches Turn::Ask {
            ask: Ask::Node { id: asked },
            stage: Stage::SaveNode { id: kept, edit: wanted },
        } && asked == id && kept == id && wanted@ == edit),
        request matches RequestView::SetCurrency { value: Some(code) } ==> (
        s.turn matches Turn::Ask {
            ask: Ask::Config,
            stage: Stage::SetCurrency { value: Some(kept) },
        } && kept@ == code),
        request is RefreshFx ==> s.turn == (Turn::Ask { ask: Ask::Config, stage: Stage::Refresh }),
        request is Other ==> (s.turn matches Turn::Ask { stage, .. } && makes_page(stage)
            && hint_at(stage) is None && fetches_left(stage) == 0),
{
}

/// The importing edition does not listen to the host's words of nodes. The reconciling edition asks
/// for the record of the node that is spoken of, where it has a positive id, and passes over what
/// cannot be read.
pub proof fn law_who_listens(edition: Edition, event: Option<NodeEvent>, s: Step)
    requires
        begins_event(edition, event, s),
    ensures
        effects_view(s.effects@) == no_effects(),
        edition == Edition::Importing || event is None ==> s.turn == (Turn::Done { reply: None }),
        edition == Edition::Reconciling ==> (event matches Some(e) ==> {
            let id = match e {
                NodeEvent::Added { node_id, .. } => node_id,
                NodeEvent::Deleted { node_id, .. } => node_id,
            };
            s.turn == if id > 0 {
                Turn::Ask { ask: Ask::Node { id }, stage: Stage::EventNode { event: e } }
            } else {
                Turn::Done { reply: None }
            }
        }),
{
}

/// The word of a node is taken in with the record that was found and the day that the clock gave,
/// and that is the end of it.
pub proof fn law_events_are_taken_in(
    edition: Edition,
    event: NodeEvent,
    stored: Option<NodeFin>,
    now: i64,
    first: Step,
    second: Step,
)
    requires
        follows(edition, Stage::EventNode { event }, Answer::Node(stored), first),
        first.turn matches Turn::Ask { stage, .. } && follows(
            edition,
            stage,
            Answer::Clock(now),
            second,
        ),
    ensures
        effects_view(first.effects@) == no_effects(),
        first.turn matches Turn::Ask { ask, .. } && ask == Ask::Clock,
        effects_view(second.effects@) == response(
            event,
            match stored {
                Some(node) => Some(node@),
                None => None,
            },
            day_at(now as int),
        ),
        second.turn == (Turn::Done { reply: None }),
{
}

// ---------------------------------------------------------------------------
// What nodes are online
// ---------------------------------------------------------------------------

/// The nodes that are online are those of the host that are so, and no others.
pub proof fn law_nodes_that_are_up(host: Seq<HostNode>, id: i64)
    ensures
        up(host).contains(id) <==> exists|i: int|
            0 <= i < host.len() && (#[trigger] host[i]).id == id && host[i].online,
    decreases host.len(),
{
    if host.len() > 0 {
        let init = host.drop_last();
        let before = up(init);
        let after = up(host);
        law_nodes_that_are_up(init, id);
        assert(host[host.len() - 1] == host.last());
        if before.contains(id) {
            let i = choose|i: int|
                0 <= i < init.len() && (#[trigger] init[i]).id == id && init[i].online;
            assert(host[i] == init[i]);
            let k = choose|k: int| 0 <= k < before.len() && before[k] == id;
            assert(after[k] == id);
        }
        if host.last().id == id && host.last().online {
            assert(after.last() == id);
        }
        if after.contains(id) {
            let k = choose|k: int| 0 <= k < after.len() && after[k] == id;
            if k < before.len() {
                assert(before[k] == id);
            }
        }
        if exists|i: int| 0 <= i < host.len() && (#[trigger] host[i]).id == id && host[i].online {
            let i = choose|i: int|
                0 <= i < host.len() && (#[trigger] host[i]).id == id && host[i].online;
            if i < init.len() {
                assert(init[i] == host[i]);
            }
        }
    }
}

// ---------------------------------------------------------------------------
// What a sweep does
// ---------------------------------------------------------------------------

/// A step of a sweep deletes the record whose size was asked for, adds that size to what was freed
/// before, and goes on with the next; behind the last it replies with the sum and the number of
/// records.
pub proof fn law_a_sweep_deletes_one_by_one(
    ids: Vec<i64>,
    at: usize,
    freed: i64,
    size: Option<u16>,
    s: Step,
)
    requires
        at < ids@.len() <= i64::MAX,
        0 <= freed <= i64::MAX - 65535,
        follows(Edition::Importing, Stage::SweepSize { ids, at, freed }, Answer::Size(size), s),
    ensures
        ({
            let sum = freed + match size {
                Some(n) => n as int,
                None => 0,
            };
            &&& effects_view(s.effects@) == seq![EffectView::DeleteNode { id: ids@[at as int] }]
            &&& at + 1 < ids@.len() ==> (s.turn matches Turn::Ask {
                ask: Ask::Size { id },
                stage: Stage::SweepSize { ids: list, at: next, freed: total },
            } && id == ids@[at + 1] && list@ == ids@ && next == at + 1 && total == sum)
            &&& at + 1 == ids@.len() ==> (s.turn matches Turn::Done { reply: Some(json) } && width(
                json@,
            ) == 2 && has(json@, "freed_bytes"@, JsonView::Int(sum)) && has(
                json@,
                "pruned"@,
                JsonView::Int(ids@.len() as int),
            ))
        }),
{
    let sum = plus_size(freed, size);
    if let JsonView::Object(fields) = sweep_reply(sum, ids@.len() as i64) {
        assert(fields[0] == ("freed_bytes"@, JsonView::Int(sum as int)));
        assert(fields[1] == ("pruned"@, JsonView::Int(ids@.len() as int)));
    }
}

/// A sweep goes over the records whose nodes the host has no longer, from the first on, with
/// nothing freed yet. Where there are none it changes nothing and says so.
pub proof fn law_a_sweep_begins_with_stale_records(
    entries: Vec<HostEntry>,
    rows: Vec<Row>,
    s: Step,
)
    requires
        follows(
            Edition::Importing,
            Stage::SweepRecords { entries },
            Answer::Records(Some(rows)),
            s,
        ),
    ensures
        ({
            let gone = stale(records_in(rows@), named(entries_view(entries@)));
            &&& effects_view(s.effects@) == no_effects()
            &&& gone.len() > 0 ==> (s.turn matches Turn::Ask {
                ask: Ask::Size { id },
                stage: Stage::SweepSize { ids, at, freed },
            } && id == gone[0] && ids@ == gone && at == 0 && freed == 0)
            &&& gone.len() == 0 ==> (s.turn matches Turn::Done { reply: Some(json) } && has(
                json@,
                "freed_bytes"@,
                JsonView::Int(0),
            ) && has(json@, "pruned"@, JsonView::Int(0)))
        }),
{
    if let JsonView::Object(fields) = sweep_reply(0, 0) {
        assert(fields[0] == ("freed_bytes"@, JsonView::Int(0)));
        assert(fields[1] == ("pruned"@, JsonView::Int(0)));
    }
}

// ---------------------------------------------------------------------------
// What stands in for what is missing
// ---------------------------------------------------------------------------

/// Without settings the totals are in yuan, the threshold is seven days, and no nodes were taken
/// over. Settings that were found are used as they are.
pub proof fn law_settings_that_were_never_made(config: Config)
    ensures
        loaded(None).target_currency == "CNY"@,
        loaded(None).threshold_days == 7,
        !loaded(None).imported,
        loaded(Some(config)).target_currency == config.target_currency@,
        loaded(Some(config)).threshold_days == config.threshold_days,
        loaded(Some(config)).imported == config.imported,
{
}

/// A choice of no currency changes nothing and fetches nothing. The reconciling edition answers it
/// as any other choice, the importing edition without a hint.
pub proof fn law_a_choice_of_no_currency(edition: Edition, found: Option<Config>, s: Step)
    requires
        follows(edition, Stage::SetCurrency { value: None }, Answer::Config(found), s),
    ensures
        effects_view(s.effects@) == no_effects(),
        s.turn matches Turn::Ask { stage: next, .. } && makes_page(next) && fetches_left(next) == 0
            && hint_at(next) == match edition {
            Edition::Importing => None,
            Edition::Reconciling => Some(("success"@, "已切换币种"@)),
        },
{
}

/// A host that gives an error in place of its nodes, or no list of them, is not heard; one that
/// gives a list, even an empty one, is.
pub proof fn law_when_the_host_is_heard(count: int, nodes: Option<Vec<HostNode>>)
    ensures
        count < 0 ==> heard(count, nodes) is None,
        count >= 0 ==> heard(count, nodes) == nodes,
{
}

/// A page of the reconciling edition shows the records aligned with the host's nodes, or, where the
/// host is not heard, as they are; in the host's order or their own. A tick then scans them as they
/// are, with nobody online.
pub proof fn law_unheard_hosts_leave_records_as_they_are(
    stage: Stage,
    count: i32,
    nodes: Option<Vec<HostNode>>,
    s: Step,
)
    requires
        follows(Edition::Reconciling, stage, Answer::Hosts { count, nodes }, s),
    ensures
        stage matches Stage::PageHosts { want, config, day, known } ==> (s.turn matches Turn::Ask {
            ask: Ask::Fx,
            stage: Stage::PageFx { sight },
        } && sight.want == want && sight.config == config && sight.day == day && !sight.unreadable
            && match heard(count as int, nodes) {
            Some(host) => nodes_view(sight.nodes@) == aligned(nodes_view(known@), host@, day)
                && effects_view(s.effects@) == alignment(nodes_view(known@), host@, day),
            None => nodes_view(sight.nodes@) == nodes_view(known@) && effects_view(s.effects@)
                == seq![
                EffectView::Log {
                    level: 2,
                    words: "finance-stats: nodes_query 失败,本轮跳过节点对账"@,
                },
            ],
        }),
        stage matches Stage::TickHosts { threshold, day, known } ==> (heard(
            count as int,
            nodes,
        ) is None ==> effects_view(s.effects@) == seq![
            EffectView::Log {
                level: 2,
                words: "finance-stats: nodes_query 失败,本轮跳过到期滚动"@,
            },
        ] + scan(Edition::Reconciling, nodes_view(known@), Seq::empty(), day, threshold)),
{
}

/// Nobody is online as far as an answer that says nothing goes.
pub proof fn law_silence_is_nobody_online(entries: Seq<EntryView>)
    ensures
        online_in(None).len() == 0,
        online_in(Some(entries)) == online_ids(entries),
{
}

} // verus!
