//! The plugin at work: what it asks its host, one question after the other, and what it does with
//! the answers.
use vstd::prelude::*;

use crate::calendar::Date;
use crate::finance::action::{
    apply_edit, edited, read_request, request_in, Edit, Request, RequestView,
};
use crate::finance::effect::{
    effects_view, log, logged, no_effects, nothing, only, push_effect, push_effects, ConfigView,
    Effect, EffectView,
};
use crate::finance::event::{
    event_subject, handle_node_event, response, stored_view, subject, NodeEvent,
};
use crate::finance::expiry::{check_nodes, scan};
use crate::finance::page::{build_page, failure_seen, page, PageData, PageView, Sums, SumsView};
use crate::finance::rates::{
    failure_of, failure_words, fetch_log, outcome, rates_url, refresh_fx, refresh_fx_failure_toast,
    url_of, why,
};
use crate::finance::record::{
    all_nodes, day_at, nodes_view, records_in, today, Config, Edition, Fx, FxStatus, NodeFin,
    NodeView, Row,
};
use crate::finance::roster::{aligned, alignment, reconcile_with, HostNode};
use crate::finance::stats::{sums, totals, Totals};
use crate::finance::takeover::{
    after_import, answered, ensure_imported, entries_found, entries_view, host_entries,
    import_effects, named, online_ids, online_nodes, stale, stale_records, EntryView, HostEntry,
};
use crate::heap::setting_in;
use crate::json::{no_fields, rates_under, toasted, with_toast, Fields, Json, JsonView};
use crate::text::{opt_text, texts};

verus! {

/// What the host is asked for.
#[derive(Debug)]
pub enum Ask {
    /// The settings, under `config`.
    Config,
    /// The panel's setting `threshold_days`.
    Threshold,
    /// The clock.
    Clock,
    /// The records, under the keys that begin with `node:`.
    Records,
    /// The host's nodes.
    Hosts,
    /// An https GET.
    Rates { url: String },
    /// The rates in the cache, under `fx`.
    Fx,
    /// The last failure to fetch them, under `fx_status`.
    FxStatus,
    /// The record of a node.
    Node { id: i64 },
    /// The length of the text that a node's record is kept in.
    Size { id: i64 },
    /// The two sums of what makes up the totals, with two decimals.
    Sums { totals: Totals },
}

/// What the host answers.
#[derive(Debug)]
pub enum Answer {
    Config(Option<Config>),
    /// The number of bytes that came back, or a code in place of them, and the buffer that they
    /// were written to.
    Threshold { count: i32, buffer: Vec<u8> },
    /// The seconds since 1970.
    Clock(i64),
    /// The rows; `None` where they could not be read.
    Records(Option<Vec<Row>>),
    /// The nodes: the number of bytes that came back, or a code in place of them, and the nodes
    /// that the bytes hold, where they are a list of nodes.
    Hosts { count: i32, nodes: Option<Vec<HostNode>> },
    /// The nodes for the importing edition: the number of bytes that came back, or a code in place
    /// of them, and the bytes as text.
    Entries { count: i32, body: String },
    /// The number of bytes that came back, or a code in place of them, and the bytes as text.
    Rates { code: i32, body: String },
    Fx(Option<Fx>),
    FxStatus(Option<FxStatus>),
    Node(Option<NodeFin>),
    Size(Option<u16>),
    Sums { annual: String, remaining: String },
}

/// A one-time hint.
#[derive(Debug)]
pub struct Toast {
    pub kind: String,
    pub words: String,
}

/// How a page is wanted.
#[derive(Debug)]
pub struct Want {
    /// Whether rates may be fetched where there are none.
    pub fetch: bool,
    pub toast: Option<Toast>,
}

/// What a page shows of the nodes.
#[derive(Debug)]
pub struct Sight {
    pub want: Want,
    pub config: Config,
    pub day: Date,
    pub nodes: Vec<(i64, NodeFin)>,
    pub unreadable: bool,
}

/// What was being done when the host's nodes had to be taken over.
#[derive(Debug)]
pub enum Errand {
    Tick,
    Page { want: Want },
}

/// What rates are fetched for.
#[derive(Debug)]
pub enum Purpose {
    Tick { threshold: i64 },
    Page { sight: Sight },
    SetCurrency,
    Refresh,
}

/// What is known while the host is asked.
#[derive(Debug)]
pub enum Stage {
    TickConfig,
    TickThreshold { config: Config },
    TickRecords { threshold: i64, day: Date },
    TickHosts { threshold: i64, day: Date, known: Vec<(i64, NodeFin)> },
    ImportClock { config: Config, errand: Errand },
    ImportRecords { config: Config, errand: Errand, day: Date },
    ImportHosts { config: Config, errand: Errand, day: Date, known: Vec<(i64, NodeFin)> },
    FetchRates { target: String, purpose: Purpose },
    FetchClock { target: String, purpose: Purpose, code: i32, body: String },
    PageConfig { want: Want },
    PageClock { want: Want, config: Config },
    PageRecords { want: Want, config: Config, day: Date },
    PageHosts { want: Want, config: Config, day: Date, known: Vec<(i64, NodeFin)> },
    PageFx { sight: Sight },
    PageFxAgain { sight: Sight },
    PageStatus { sight: Sight, fx: Option<Fx> },
    PageThreshold { sight: Sight, fx: Option<Fx>, failure: Option<FxStatus> },
    PageSums { data: PageData, missing: Vec<String>, toast: Option<Toast> },
    SetCurrency { value: Option<String> },
    Refresh,
    RefreshStatus,
    RefreshFx { status: Option<FxStatus> },
    SaveNode { id: i64, edit: Edit },
    EventNode { event: NodeEvent },
    EventClock { event: NodeEvent, stored: Option<NodeFin> },
    SweepHosts,
    SweepRecords { entries: Vec<HostEntry> },
    SweepSize { ids: Vec<i64>, at: usize, freed: i64 },
}

/// What comes next: a question to the host, or the end, with a reply where one is due.
pub enum Turn {
    Ask { ask: Ask, stage: Stage },
    Done { reply: Option<Json> },
}

/// What comes next, and the changes to make before it.
pub struct Step {
    pub effects: Vec<Effect>,
    pub turn: Turn,
}

impl Stage {
    /// Whether the days that are held are days of the calendar, and a sweep has not run out.
    pub open spec fn valid(self) -> bool {
        match self {
            Stage::TickRecords { day, .. } => day.valid(),
            Stage::TickHosts { day, .. } => day.valid(),
            Stage::ImportRecords { day, .. } => day.valid(),
            Stage::ImportHosts { day, .. } => day.valid(),
            Stage::FetchRates { purpose: Purpose::Page { sight }, .. } => sight.day.valid(),
            Stage::FetchClock { purpose: Purpose::Page { sight }, .. } => sight.day.valid(),
            Stage::PageRecords { day, .. } => day.valid(),
            Stage::PageHosts { day, .. } => day.valid(),
            Stage::PageFx { sight } => sight.day.valid(),
            Stage::PageFxAgain { sight } => sight.day.valid(),
            Stage::PageStatus { sight, .. } => sight.day.valid(),
            Stage::PageThreshold { sight, .. } => sight.day.valid(),
            Stage::PageSums { data, .. } => data.day.valid(),
            Stage::SweepSize { ids, at, .. } => at < ids@.len(),
            _ => true,
        }
    }

    /// Whether an answer is one to what was asked.
    pub open spec fn takes(self, edition: Edition, answer: Answer) -> bool {
        match self {
            Stage::TickConfig
            | Stage::PageConfig { .. }
            | Stage::SetCurrency { .. }
            | Stage::Refresh => answer is Config,
            Stage::TickThreshold { .. } | Stage::PageThreshold { .. } => {
                answer matches Answer::Threshold { count, buffer } && count <= buffer@.len()
            },
            Stage::TickRecords { .. }
            | Stage::ImportRecords { .. }
            | Stage::PageRecords { .. }
            | Stage::SweepRecords { .. } => answer is Records,
            Stage::TickHosts { .. } => match edition {
                Edition::Importing => answer is Entries,
                Edition::Reconciling => answer is Hosts,
            },
            Stage::ImportHosts { .. } | Stage::SweepHosts => answer is Entries,
            Stage::PageHosts { .. } => answer is Hosts,
            Stage::ImportClock { .. }
            | Stage::FetchClock { .. }
            | Stage::PageClock { .. }
            | Stage::EventClock { .. } => answer is Clock,
            Stage::FetchRates { .. } => answer is Rates,
            Stage::PageFx { .. }
            | Stage::PageFxAgain { .. }
            | Stage::RefreshFx { .. } => answer is Fx,
            Stage::PageStatus { .. } | Stage::RefreshStatus => answer is FxStatus,
            Stage::PageSums { .. } => answer is Sums,
            Stage::SaveNode { .. } | Stage::EventNode { .. } => answer is Node,
            Stage::SweepSize { .. } => answer is Size,
        }
    }
}

// ---------------------------------------------------------------------------
// What a step can be
// ---------------------------------------------------------------------------

/// Whether a step makes some changes, asks for something, and what is then known.
pub open spec fn asks(s: Step, effects: Seq<EffectView>, ask: Ask, stage: Stage) -> bool {
    effects_view(s.effects@) == effects && s.turn == (Turn::Ask { ask, stage })
}

/// Whether a step makes some changes and ends without a reply.
pub open spec fn stops(s: Step, effects: Seq<EffectView>) -> bool {
    effects_view(s.effects@) == effects && s.turn == (Turn::Done { reply: None })
}

/// Whether a step makes some changes and ends with a reply.
pub open spec fn replies(s: Step, effects: Seq<EffectView>, reply: JsonView) -> bool {
    &&& effects_view(s.effects@) == effects
    &&& s.turn matches Turn::Done { reply: Some(json) }
    &&& json@ == reply
}

/// A hint in the abstract.
pub open spec fn toast_view(toast: Option<Toast>) -> Option<(Seq<char>, Seq<char>)> {
    match toast {
        Some(t) => Some((t.kind@, t.words@)),
        None => None,
    }
}

/// Whether a step makes some changes and begins with a page.
pub open spec fn begins_page(
    s: Step,
    effects: Seq<EffectView>,
    fetch: bool,
    toast: Option<(Seq<char>, Seq<char>)>,
) -> bool {
    &&& effects_view(s.effects@) == effects
    &&& s.turn matches Turn::Ask { ask: Ask::Config, stage: Stage::PageConfig { want } }
    &&& want.fetch == fetch
    &&& toast_view(want.toast) == toast
}

/// Whether a step makes some changes, logs that it fetches the rates of a currency, and does.
pub open spec fn fetches(
    s: Step,
    effects: Seq<EffectView>,
    target: Seq<char>,
    purpose: Purpose,
) -> bool {
    &&& effects_view(s.effects@) == effects.push(
        EffectView::Log { level: 1, words: fetch_log(target) },
    )
    &&& s.turn matches Turn::Ask {
        ask: Ask::Rates { url },
        stage: Stage::FetchRates { target: t, purpose: p },
    }
    &&& url@ == url_of(target)
    &&& t@ == target
    &&& p == purpose
}

/// The records in rows; none where they could not be read.
pub open spec fn records_or_none(rows: Option<Vec<Row>>) -> Seq<(i64, NodeView)> {
    match rows {
        Some(list) => records_in(list@),
        None => Seq::empty(),
    }
}

/// The nodes in the host's answer. A code in place of them, or bytes that are no list of nodes, are
/// not an answer without nodes: they say nothing of which nodes there are.
pub open spec fn heard(count: int, nodes: Option<Vec<HostNode>>) -> Option<Vec<HostNode>> {
    if count < 0 {
        None
    } else {
        nodes
    }
}

/// The ids of the nodes that are online in the host's answer; none without an answer.
pub open spec fn online_in(entries: Option<Seq<EntryView>>) -> Seq<i64> {
    match entries {
        Some(list) => online_ids(list),
        None => Seq::empty(),
    }
}

/// The ids of the nodes that are online.
pub open spec fn up(host: Seq<HostNode>) -> Seq<i64>
    decreases host.len(),
{
    if host.len() == 0 {
        Seq::empty()
    } else if host.last().online {
        up(host.drop_last()).push(host.last().id)
    } else {
        up(host.drop_last())
    }
}

/// Settings in the abstract: those that were found, or those of a plugin that was never set up.
pub open spec fn loaded(found: Option<Config>) -> ConfigView {
    match found {
        Some(c) => c@,
        None => ConfigView { target_currency: "CNY"@, threshold_days: 7, imported: false },
    }
}

/// Whether a step goes on with a page: it asks for the rates in the cache, with what the page
/// shows.
pub open spec fn sees(
    s: Step,
    effects: Seq<EffectView>,
    want: Want,
    config: Config,
    day: Date,
    nodes: Seq<(i64, NodeView)>,
    unreadable: bool,
) -> bool {
    &&& effects_view(s.effects@) == effects
    &&& s.turn matches Turn::Ask { ask: Ask::Fx, stage: Stage::PageFx { sight } }
    &&& sight.want == want
    &&& sight.config == config
    &&& sight.day == day
    &&& nodes_view(sight.nodes@) == nodes
    &&& sight.unreadable == unreadable
}

/// What a page is made from, without its totals.
pub open spec fn shown(
    sight: Sight,
    fx: Option<Fx>,
    failure: Option<FxStatus>,
    window: i64,
) -> PageView {
    PageView {
        target: sight.config.target_currency@,
        window,
        nodes: nodes_view(sight.nodes@),
        unreadable: sight.unreadable,
        rates: match fx {
            Some(f) => Some((f.base@, f.fetched_at)),
            None => None,
        },
        failure: failure_seen(failure),
        sums: None,
        day: sight.day,
    }
}

/// A page with its hint.
pub open spec fn finished(edition: Edition, data: PageView, toast: Option<Toast>) -> JsonView {
    match toast {
        Some(t) => toasted(page(edition, data), t.kind@, t.words@),
        None => page(edition, data),
    }
}

/// Whether a step shows a page: at once where there are no rates, and otherwise after the totals
/// have been summed up.
pub open spec fn shows(
    s: Step,
    edition: Edition,
    sight: Sight,
    fx: Option<Fx>,
    failure: Option<FxStatus>,
    window: i64,
) -> bool {
    match fx {
        None => replies(
            s,
            no_effects(),
            finished(edition, shown(sight, fx, failure, window), sight.want.toast),
        ),
        Some(f) => {
            let parts = sums(edition, f@, nodes_view(sight.nodes@), sight.day);
            &&& effects_view(s.effects@) == no_effects()
            &&& s.turn matches Turn::Ask {
                ask: Ask::Sums { totals },
                stage: Stage::PageSums { data, missing, toast },
            }
            &&& totals@ == parts
            &&& data@ == shown(sight, fx, failure, window)
            &&& texts(missing@) == parts.missing
            &&& toast == sight.want.toast
        },
    }
}

/// What a sweep replies.
pub open spec fn sweep_reply(freed: i64, pruned: i64) -> JsonView {
    JsonView::Object(
        no_fields().push(("freed_bytes"@, JsonView::Int(freed as int))).push(
            ("pruned"@, JsonView::Int(pruned as int)),
        ),
    )
}

/// A sum with the size of one record more.
pub open spec fn plus_size(freed: i64, size: Option<u16>) -> i64 {
    match size {
        Some(n) => freed.wrapping_add(n as i64),
        None => freed,
    }
}

/// Whether a step goes on with a sweep at some place of its list.
pub open spec fn sweeps(
    s: Step,
    effects: Seq<EffectView>,
    ids: Seq<i64>,
    at: int,
    freed: i64,
) -> bool {
    if at < ids.len() {
        &&& effects_view(s.effects@) == effects
        &&& s.turn matches Turn::Ask {
            ask: Ask::Size { id },
            stage: Stage::SweepSize { ids: list, at: place, freed: sum },
        }
        &&& id == ids[at]
        &&& list@ == ids
        &&& place == at
        &&& sum == freed
    } else {
        replies(s, effects, sweep_reply(freed, ids.len() as i64))
    }
}

// ---------------------------------------------------------------------------
// What follows from an answer
// ---------------------------------------------------------------------------

/// What follows in a tick.
pub open spec fn tick_follows(edition: Edition, stage: Stage, answer: Answer, s: Step) -> bool {
    match (stage, answer) {
        (Stage::TickConfig, Answer::Config(found)) => match edition {
            Edition::Importing => if loaded(found).imported {
                fetches(
                    s,
                    no_effects(),
                    loaded(found).target_currency,
                    Purpose::Tick { threshold: loaded(found).threshold_days },
                )
            } else {
                takes_over(s, loaded(found), Errand::Tick)
            },
            Edition::Reconciling => {
                &&& effects_view(s.effects@) == no_effects()
                &&& s.turn matches Turn::Ask {
                    ask: Ask::Threshold,
                    stage: Stage::TickThreshold { config },
                }
                &&& config@ == loaded(found)
            },
        },
        (Stage::TickThreshold { config }, Answer::Threshold { count, buffer }) => fetches(
            s,
            no_effects(),
            config.target_currency@,
            Purpose::Tick { threshold: config.threshold(setting_in(count as int, buffer@)) },
        ),
        (Stage::TickRecords { threshold, day }, Answer::Records(rows)) => if edition
            == Edition::Reconciling && rows is None {
            stops(s, logged(3, "finance-stats: 读插件记录失败,本轮跳过对账与到期扫描"@))
        } else {
            &&& effects_view(s.effects@) == no_effects()
            &&& s.turn matches Turn::Ask {
                ask: Ask::Hosts,
                stage: Stage::TickHosts { threshold: t, day: d, known },
            }
            &&& t == threshold
            &&& d == day
            &&& nodes_view(known@) == records_or_none(rows)
        },
        (Stage::TickHosts { threshold, day, known }, Answer::Entries { count, body }) => stops(
            s,
            scan(
                edition,
                nodes_view(known@),
                online_in(answered(count as int, body@)),
                day,
                threshold,
            ),
        ),
        (Stage::TickHosts { threshold, day, known }, Answer::Hosts { count, nodes }) => stops(
            s,
            match heard(count as int, nodes) {
                Some(list) => alignment(nodes_view(known@), list@, day) + scan(
                    edition,
                    aligned(nodes_view(known@), list@, day),
                    up(list@),
                    day,
                    threshold,
                ),
                None => logged(2, "finance-stats: nodes_query 失败,本轮跳过到期滚动"@) + scan(
                    edition,
                    nodes_view(known@),
                    Seq::empty(),
                    day,
                    threshold,
                ),
            },
        ),
        _ => false,
    }
}

/// Whether a step begins to take the host's nodes over.
pub open spec fn takes_over(s: Step, config: ConfigView, errand: Errand) -> bool {
    &&& effects_view(s.effects@) == no_effects()
    &&& s.turn matches Turn::Ask {
        ask: Ask::Clock,
        stage: Stage::ImportClock { config: c, errand: e },
    }
    &&& c@ == config
    &&& e == errand
}

/// Whether a step makes some changes and asks for the records for a page.
pub open spec fn asks_records(
    s: Step,
    effects: Seq<EffectView>,
    want: Want,
    config: ConfigView,
    day: Date,
) -> bool {
    &&& effects_view(s.effects@) == effects
    &&& s.turn matches Turn::Ask {
        ask: Ask::Records,
        stage: Stage::PageRecords { want: w, config: c, day: d },
    }
    &&& w == want
    &&& c@ == config
    &&& d == day
}

/// What follows while the host's nodes are taken over.
pub open spec fn import_follows(stage: Stage, answer: Answer, s: Step) -> bool {
    match (stage, answer) {
        (Stage::ImportClock { config, errand }, Answer::Clock(now)) => asks(
            s,
            no_effects(),
            Ask::Records,
            Stage::ImportRecords { config, errand, day: day_at(now as int) },
        ),
        (Stage::ImportRecords { config, errand, day }, Answer::Records(rows)) => {
            &&& effects_view(s.effects@) == no_effects()
            &&& s.turn matches Turn::Ask {
                ask: Ask::Hosts,
                stage: Stage::ImportHosts { config: c, errand: e, day: d, known },
            }
            &&& c == config
            &&& e == errand
            &&& d == day
            &&& nodes_view(known@) == records_or_none(rows)
        },
        (Stage::ImportHosts { config, errand, day, known }, Answer::Entries { count, body }) => {
            let entries = answered(count as int, body@);
            let effects = import_effects(config@, nodes_view(known@), entries, day);
            match errand {
                Errand::Tick => fetches(
                    s,
                    effects,
                    config.target_currency@,
                    Purpose::Tick { threshold: config.threshold_days },
                ),
                Errand::Page { want } => asks_records(
                    s,
                    effects,
                    want,
                    after_import(config@, entries),
                    day,
                ),
            }
        },
        _ => false,
    }
}

/// What follows while rates are fetched.
pub open spec fn fetch_follows(edition: Edition, stage: Stage, answer: Answer, s: Step) -> bool {
    match (stage, answer) {
        (Stage::FetchRates { target, purpose }, Answer::Rates { code, body }) => asks(
            s,
            no_effects(),
            Ask::Clock,
            Stage::FetchClock { target, purpose, code, body },
        ),
        (Stage::FetchClock { target, purpose, code, body }, Answer::Clock(now)) => {
            let parsed = rates_under(body@, "rates"@);
            let effects = outcome(edition, target@, code as int, parsed, now);
            let fresh = failure_of(code as int, parsed) is None;
            match purpose {
                Purpose::Tick { threshold } => asks(
                    s,
                    if fresh {
                        effects.push(
                            EffectView::Log { level: 1, words: "finance-stats: 汇率已更新"@ },
                        )
                    } else {
                        effects
                    },
                    Ask::Records,
                    Stage::TickRecords { threshold, day: day_at(now as int) },
                ),
                Purpose::Page { sight } => if fresh {
                    asks(s, effects, Ask::Fx, Stage::PageFxAgain { sight })
                } else {
                    asks(s, effects, Ask::FxStatus, Stage::PageStatus { sight, fx: None })
                },
                Purpose::SetCurrency => begins_page(
                    s,
                    effects,
                    false,
                    Some(("success"@, "已切换币种"@)),
                ),
                Purpose::Refresh => if fresh {
                    begins_page(s, effects, false, Some(("success"@, "汇率已刷新"@)))
                } else {
                    asks(s, effects, Ask::FxStatus, Stage::RefreshStatus)
                },
            }
        },
        _ => false,
    }
}

/// What follows while a page is made.
pub open spec fn page_follows(edition: Edition, stage: Stage, answer: Answer, s: Step) -> bool {
    match (stage, answer) {
        (Stage::PageConfig { want }, Answer::Config(found)) => if edition == Edition::Importing
            && !loaded(found).imported {
            takes_over(s, loaded(found), Errand::Page { want })
        } else {
            &&& effects_view(s.effects@) == no_effects()
            &&& s.turn matches Turn::Ask {
                ask: Ask::Clock,
                stage: Stage::PageClock { want: w, config },
            }
            &&& w == want
            &&& config@ == loaded(found)
        },
        (Stage::PageClock { want, config }, Answer::Clock(now)) => asks_records(
            s,
            no_effects(),
            want,
            config@,
            day_at(now as int),
        ),
        (Stage::PageRecords { want, config, day }, Answer::Records(rows)) => match edition {
            Edition::Importing => sees(
                s,
                no_effects(),
                want,
                config,
                day,
                records_or_none(rows),
                false,
            ),
            Edition::Reconciling => if rows is None {
                sees(
                    s,
                    logged(3, "finance-stats: 读插件记录失败,本轮跳过对账"@),
                    want,
                    config,
                    day,
                    Seq::empty(),
                    true,
                )
            } else {
                &&& effects_view(s.effects@) == no_effects()
                &&& s.turn matches Turn::Ask {
                    ask: Ask::Hosts,
                    stage: Stage::PageHosts { want: w, config: c, day: d, known },
                }
                &&& w == want
                &&& c == config
                &&& d == day
                &&& nodes_view(known@) == records_or_none(rows)
            },
        },
        (Stage::PageHosts { want, config, day, known }, Answer::Hosts { count, nodes }) => match heard(
            count as int,
            nodes,
        ) {
            Some(list) => sees(
                s,
                alignment(nodes_view(known@), list@, day),
                want,
                config,
                day,
                aligned(nodes_view(known@), list@, day),
                false,
            ),
            None => sees(
                s,
                logged(2, "finance-stats: nodes_query 失败,本轮跳过节点对账"@),
                want,
                config,
                day,
                nodes_view(known@),
                false,
            ),
        },
        (Stage::PageFx { sight }, Answer::Fx(fx)) => if fx is None && sight.want.fetch {
            fetches(s, no_effects(), sight.config.target_currency@, Purpose::Page { sight })
        } else {
            asks(s, no_effects(), Ask::FxStatus, Stage::PageStatus { sight, fx })
        },
        (Stage::PageFxAgain { sight }, Answer::Fx(fx)) => asks(
            s,
            no_effects(),
            Ask::FxStatus,
            Stage::PageStatus { sight, fx },
        ),
        (Stage::PageStatus { sight, fx }, Answer::FxStatus(failure)) => match edition {
            Edition::Importing => shows(
                s,
                edition,
                sight,
                fx,
                failure,
                sight.config.threshold_days,
            ),
            Edition::Reconciling => asks(
                s,
                no_effects(),
                Ask::Threshold,
                Stage::PageThreshold { sight, fx, failure },
            ),
        },
        (Stage::PageThreshold { sight, fx, failure }, Answer::Threshold { count, buffer }) => shows(
            s,
            edition,
            sight,
            fx,
            failure,
            sight.config.threshold(setting_in(count as int, buffer@)),
        ),
        (Stage::PageSums { data, missing, toast }, Answer::Sums { annual, remaining }) => {
            let amounts = SumsView {
                annual: annual@,
                remaining: remaining@,
                missing: texts(missing@),
            };
            replies(
                s,
                no_effects(),
                finished(edition, PageView { sums: Some(amounts), ..data@ }, toast),
            )
        },
        _ => false,
    }
}

/// Settings with another currency for the totals.
pub open spec fn with_currency(config: ConfigView, code: Seq<char>) -> ConfigView {
    ConfigView { target_currency: code, ..config }
}

/// The hint on the page after a request that leaves out what it is about. The importing edition
/// gives none.
pub open spec fn hint_for(edition: Edition, kind: Seq<char>, words: Seq<char>) -> Option<
    (Seq<char>, Seq<char>),
> {
    match edition {
        Edition::Importing => None,
        Edition::Reconciling => Some((kind, words)),
    }
}

/// What follows while a request is served.
pub open spec fn action_follows(edition: Edition, stage: Stage, answer: Answer, s: Step) -> bool {
    match (stage, answer) {
        (Stage::SetCurrency { value }, Answer::Config(found)) => match value {
            Some(code) => fetches(
                s,
                no_effects().push(EffectView::SaveConfig(with_currency(loaded(found), code@))),
                code@,
                Purpose::SetCurrency,
            ),
            None => begins_page(
                s,
                no_effects(),
                false,
                hint_for(edition, "success"@, "已切换币种"@),
            ),
        },
        (Stage::Refresh, Answer::Config(found)) => fetches(
            s,
            no_effects(),
            loaded(found).target_currency,
            Purpose::Refresh,
        ),
        (Stage::RefreshStatus, Answer::FxStatus(status)) => asks(
            s,
            no_effects(),
            Ask::Fx,
            Stage::RefreshFx { status },
        ),
        (Stage::RefreshFx { status }, Answer::Fx(fx)) => begins_page(
            s,
            no_effects(),
            false,
            Some(("error"@, failure_words(why(status), fx is Some))),
        ),
        (Stage::SaveNode { id, edit }, Answer::Node(found)) => match found {
            Some(node) => begins_page(
                s,
                no_effects().push(EffectView::SaveNode { id, node: edited(node@, edit@) }),
                false,
                Some(("success"@, "已保存"@)),
            ),
            None => begins_page(
                s,
                no_effects(),
                false,
                Some(("error"@, "节点记录不存在，未保存"@)),
            ),
        },
        _ => false,
    }
}

/// What follows while an event is taken in.
pub open spec fn event_follows(stage: Stage, answer: Answer, s: Step) -> bool {
    match (stage, answer) {
        (Stage::EventNode { event }, Answer::Node(stored)) => asks(
            s,
            no_effects(),
            Ask::Clock,
            Stage::EventClock { event, stored },
        ),
        (Stage::EventClock { event, stored }, Answer::Clock(now)) => stops(
            s,
            response(event, stored_view(stored), day_at(now as int)),
        ),
        _ => false,
    }
}

/// What follows in a sweep.
pub open spec fn sweep_follows(stage: Stage, answer: Answer, s: Step) -> bool {
    match (stage, answer) {
        (Stage::SweepHosts, Answer::Entries { count, body }) => match answered(
            count as int,
            body@,
        ) {
            Some(entries) => {
                &&& effects_view(s.effects@) == no_effects()
                &&& s.turn matches Turn::Ask {
                    ask: Ask::Records,
                    stage: Stage::SweepRecords { entries: list },
                }
                &&& entries_view(list@) == entries
            },
            None => replies(s, no_effects(), sweep_reply(0, 0)),
        },
        (Stage::SweepRecords { entries }, Answer::Records(rows)) => sweeps(
            s,
            no_effects(),
            stale(records_or_none(rows), named(entries_view(entries@))),
            0,
            0,
        ),
        (Stage::SweepSize { ids, at, freed }, Answer::Size(size)) => sweeps(
            s,
            no_effects().push(EffectView::DeleteNode { id: ids@[at as int] }),
            ids@,
            at + 1,
            plus_size(freed, size),
        ),
        _ => false,
    }
}

/// Whether a step follows from an answer to what a stage asked for.
pub open spec fn follows(edition: Edition, stage: Stage, answer: Answer, s: Step) -> bool {
    match stage {
        Stage::TickConfig
        | Stage::TickThreshold { .. }
        | Stage::TickRecords { .. }
        | Stage::TickHosts { .. } => tick_follows(
            edition,
            stage,
            answer,
            s,
        ),
        Stage::ImportClock { .. }
        | Stage::ImportRecords { .. }
        | Stage::ImportHosts { .. } => import_follows(
            stage,
            answer,
            s,
        ),
        Stage::FetchRates { .. } | Stage::FetchClock { .. } => fetch_follows(
            edition,
            stage,
            answer,
            s,
        ),
        Stage::SetCurrency { .. }
        | Stage::Refresh
        | Stage::RefreshStatus
        | Stage::RefreshFx { .. }
        | Stage::SaveNode { .. } => action_follows(
            edition,
            stage,
            answer,
            s,
        ),
        Stage::EventNode { .. } | Stage::EventClock { .. } => event_follows(stage, answer, s),
        Stage::SweepHosts | Stage::SweepRecords { .. } | Stage::SweepSize { .. } => sweep_follows(
            stage,
            answer,
            s,
        ),
        _ => page_follows(edition, stage, answer, s),
    }
}

// ---------------------------------------------------------------------------
// Steps
// ---------------------------------------------------------------------------

fn ask(effects: Vec<Effect>, what: Ask, stage: Stage) -> (s: Step)
    ensures
        asks(s, effects_view(effects@), what, stage),
{
    Step { effects, turn: Turn::Ask { ask: what, stage } }
}

fn stop(effects: Vec<Effect>) -> (s: Step)
    ensures
        stops(s, effects_view(effects@)),
{
    Step { effects, turn: Turn::Done { reply: None } }
}

fn start_page(effects: Vec<Effect>, fetch: bool, kind: &str, words: &str) -> (s: Step)
    ensures
        begins_page(s, effects_view(effects@), fetch, Some((kind@, words@))),
{
    let toast = Some(Toast { kind: kind.to_owned(), words: words.to_owned() });
    ask(effects, Ask::Config, Stage::PageConfig { want: Want { fetch, toast } })
}

fn start_page_for(edition: Edition, kind: &str, words: &str) -> (s: Step)
    ensures
        begins_page(s, no_effects(), false, hint_for(edition, kind@, words@)),
{
    match edition {
        Edition::Importing => ask(
            nothing(),
            Ask::Config,
            Stage::PageConfig { want: Want { fetch: false, toast: None } },
        ),
        Edition::Reconciling => start_page(nothing(), false, kind, words),
    }
}

fn fetch(effects: Vec<Effect>, target: String, purpose: Purpose) -> (s: Step)
    ensures
        fetches(s, effects_view(effects@), target@, purpose),
{
    let url = rates_url(target.as_str());
    let mut words = "finance-stats: 拉取汇率 ".to_owned();
    words.append(url.as_str());
    let mut effects = effects;
    push_effect(&mut effects, Effect::Log { level: 1, words });
    ask(effects, Ask::Rates { url }, Stage::FetchRates { target, purpose })
}

fn read_rows(rows: Option<Vec<Row>>) -> (r: Vec<(i64, NodeFin)>)
    ensures
        nodes_view(r@) == records_or_none(rows),
{
    match rows {
        Some(list) => all_nodes(list),
        None => {
            let none: Vec<(i64, NodeFin)> = Vec::new();
            assert(nodes_view(none@) == records_or_none(rows));
            none
        },
    }
}

fn hear(count: i32, nodes: Option<Vec<HostNode>>) -> (r: Option<Vec<HostNode>>)
    ensures
        r == heard(count as int, nodes),
{
    if count < 0 {
        None
    } else {
        nodes
    }
}

fn online_heard(entries: &Option<Vec<HostEntry>>) -> (r: Vec<i64>)
    ensures
        r@ == online_in(entries_found(*entries)),
{
    match entries {
        Some(list) => online_nodes(list),
        None => Vec::new(),
    }
}

fn up_nodes(host: &Vec<HostNode>) -> (r: Vec<i64>)
    ensures
        r@ == up(host@),
{
    let mut out: Vec<i64> = Vec::new();
    let mut i: usize = 0;
    assert(out@ == up(host@.take(0)));
    while i < host.len()
        invariant
            0 <= i <= host@.len(),
            out@ == up(host@.take(i as int)),
        decreases host@.len() - i,
    {
        assert(host@.take(i + 1).drop_last() == host@.take(i as int));
        if host[i].online {
            out.push(host[i].id);
        }
        i += 1;
    }
    assert(host@.take(i as int) == host@);
    out
}

fn tick_step(edition: Edition, stage: Stage, answer: Answer) -> (s: Step)
    requires
        stage is TickConfig || stage is TickThreshold || stage is TickRecords || stage is TickHosts,
        stage.valid(),
        stage.takes(edition, answer),
    ensures
        tick_follows(edition, stage, answer, s),
        s.turn matches Turn::Ask { stage: next, .. } ==> next.valid(),
{
    match (stage, answer) {
        (Stage::TickConfig, Answer::Config(found)) => {
            let config = Config::load(found);
            match edition {
                Edition::Importing => if config.imported {
                    fetch(
                        nothing(),
                        config.target_currency,
                        Purpose::Tick { threshold: config.threshold_days },
                    )
                } else {
                    ask(nothing(), Ask::Clock, Stage::ImportClock { config, errand: Errand::Tick })
                },
                Edition::Reconciling => ask(
                    nothing(),
                    Ask::Threshold,
                    Stage::TickThreshold { config },
                ),
            }
        },
        (Stage::TickThreshold { config }, Answer::Threshold { count, buffer }) => {
            let threshold: i64 = config.threshold_days(count, buffer.as_slice());
            fetch(nothing(), config.target_currency, Purpose::Tick { threshold })
        },
        (Stage::TickRecords { threshold, day }, Answer::Records(rows)) => {
            let unreadable = match edition {
                Edition::Importing => false,
                Edition::Reconciling => rows.is_none(),
            };
            if unreadable {
                return stop(log(3, "finance-stats: 读插件记录失败,本轮跳过对账与到期扫描"));
            }
            let known = read_rows(rows);
            ask(nothing(), Ask::Hosts, Stage::TickHosts { threshold, day, known })
        },
        (Stage::TickHosts { threshold, day, known }, Answer::Entries { count, body }) => {
            let entries = host_entries(count, body.as_str());
            let online = online_heard(&entries);
            stop(check_nodes(edition, &known, &online, &day, threshold))
        },
        (Stage::TickHosts { threshold, day, known }, Answer::Hosts { count, nodes }) => match hear(count, nodes) {
            Some(list) => {
                let (nodes, mut effects) = reconcile_with(&list, known, &day);
                let online = up_nodes(&list);
                let more = check_nodes(edition, &nodes, &online, &day, threshold);
                push_effects(&mut effects, more);
                stop(effects)
            },
            None => {
                let nobody: Vec<i64> = Vec::new();
                let mut effects = log(2, "finance-stats: nodes_query 失败,本轮跳过到期滚动");
                let more = check_nodes(edition, &known, &nobody, &day, threshold);
                push_effects(&mut effects, more);
                stop(effects)
            },
        },
        (_, _) => stop(nothing()),
    }
}

fn import_step(stage: Stage, answer: Answer) -> (s: Step)
    requires
        stage is ImportClock || stage is ImportRecords || stage is ImportHosts,
        stage.valid(),
        stage.takes(Edition::Importing, answer),
    ensures
        import_follows(stage, answer, s),
        s.turn matches Turn::Ask { stage: next, .. } ==> next.valid(),
{
    match (stage, answer) {
        (Stage::ImportClock { config, errand }, Answer::Clock(now)) => {
            let day = today(now);
            ask(nothing(), Ask::Records, Stage::ImportRecords { config, errand, day })
        },
        (Stage::ImportRecords { config, errand, day }, Answer::Records(rows)) => {
            let known = read_rows(rows);
            ask(nothing(), Ask::Hosts, Stage::ImportHosts { config, errand, day, known })
        },
        (Stage::ImportHosts { config, errand, day, known }, Answer::Entries { count, body }) => {
            let entries = host_entries(count, body.as_str());
            let (config, effects) = ensure_imported(config, &known, &entries, &day);
            match errand {
                Errand::Tick => fetch(
                    effects,
                    config.target_currency,
                    Purpose::Tick { threshold: config.threshold_days },
                ),
                Errand::Page { want } => ask(
                    effects,
                    Ask::Records,
                    Stage::PageRecords { want, config, day },
                ),
            }
        },
        (_, _) => stop(nothing()),
    }
}

fn fetch_step(edition: Edition, stage: Stage, answer: Answer) -> (s: Step)
    requires
        stage is FetchRates || stage is FetchClock,
        stage.valid(),
        stage.takes(Edition::Importing, answer),
    ensures
        fetch_follows(edition, stage, answer, s),
        s.turn matches Turn::Ask { stage: next, .. } ==> next.valid(),
{
    match (stage, answer) {
        (Stage::FetchRates { target, purpose }, Answer::Rates { code, body }) => ask(
            nothing(),
            Ask::Clock,
            Stage::FetchClock { target, purpose, code, body },
        ),
        (Stage::FetchClock { target, purpose, code, body }, Answer::Clock(now)) => {
            let (fresh, effects) = refresh_fx(edition, target.as_str(), code, body.as_str(), now);
            match purpose {
                Purpose::Tick { threshold } => {
                    let mut effects = effects;
                    if fresh {
                        let words = "finance-stats: 汇率已更新".to_owned();
                        push_effect(&mut effects, Effect::Log { level: 1, words });
                    }
                    ask(effects, Ask::Records, Stage::TickRecords { threshold, day: today(now) })
                },
                Purpose::Page { sight } => if fresh {
                    ask(effects, Ask::Fx, Stage::PageFxAgain { sight })
                } else {
                    ask(effects, Ask::FxStatus, Stage::PageStatus { sight, fx: None })
                },
                Purpose::SetCurrency => start_page(effects, false, "success", "已切换币种"),
                Purpose::Refresh => if fresh {
                    start_page(effects, false, "success", "汇率已刷新")
                } else {
                    ask(effects, Ask::FxStatus, Stage::RefreshStatus)
                },
            }
        },
        (_, _) => stop(nothing()),
    }
}

fn finish(edition: Edition, data: &PageData, toast: Option<Toast>) -> (s: Step)
    requires
        data.day.valid(),
    ensures
        replies(s, no_effects(), finished(edition, data@, toast)),
{
    let plain = build_page(edition, data);
    let reply = match toast {
        Some(t) => with_toast(plain, t.kind.as_str(), t.words.as_str()),
        None => plain,
    };
    Step { effects: nothing(), turn: Turn::Done { reply: Some(reply) } }
}

fn show(
    edition: Edition,
    sight: Sight,
    fx: Option<Fx>,
    failure: Option<FxStatus>,
    window: i64,
) -> (s: Step)
    requires
        sight.day.valid(),
    ensures
        shows(s, edition, sight, fx, failure, window),
        s.turn matches Turn::Ask { stage: next, .. } ==> next.valid(),
{
    let parts = match &fx {
        Some(f) => Some(totals(edition, f, &sight.nodes, &sight.day)),
        None => None,
    };
    let rates = match fx {
        Some(f) => Some((f.base, f.fetched_at)),
        None => None,
    };
    let data = PageData {
        target: sight.config.target_currency,
        window,
        nodes: sight.nodes,
        unreadable: sight.unreadable,
        rates,
        failure,
        sums: None,
        day: sight.day,
    };
    assert(data@ == shown(sight, fx, failure, window));
    match parts {
        Some(totals) => {
            let missing = copy_texts(&totals.missing);
            ask(
                nothing(),
                Ask::Sums { totals },
                Stage::PageSums { data, missing, toast: sight.want.toast },
            )
        },
        None => finish(edition, &data, sight.want.toast),
    }
}

fn copy_texts(list: &Vec<String>) -> (r: Vec<String>)
    ensures
        texts(r@) == texts(list@),
{
    let mut out: Vec<String> = Vec::new();
    let mut i: usize = 0;
    while i < list.len()
        invariant
            0 <= i <= list@.len(),
            out@.len() == i,
            forall|k: int| 0 <= k < i ==> (#[trigger] out@[k])@ == list@[k]@,
        decreases list@.len() - i,
    {
        out.push(list[i].clone());
        i += 1;
    }
    assert(texts(out@) == texts(list@));
    out
}

fn page_step(edition: Edition, stage: Stage, answer: Answer) -> (s: Step)
    requires
        stage is PageConfig || stage is PageClock || stage is PageRecords || stage is PageHosts
            || stage is PageFx || stage is PageFxAgain || stage is PageStatus
            || stage is PageThreshold || stage is PageSums,
        stage.valid(),
        stage.takes(edition, answer),
    ensures
        page_follows(edition, stage, answer, s),
        s.turn matches Turn::Ask { stage: next, .. } ==> next.valid(),
{
    match (stage, answer) {
        (Stage::PageConfig { want }, Answer::Config(found)) => {
            let config = Config::load(found);
            let fresh = match edition {
                Edition::Importing => !config.imported,
                Edition::Reconciling => false,
            };
            if fresh {
                ask(
                    nothing(),
                    Ask::Clock,
                    Stage::ImportClock { config, errand: Errand::Page { want } },
                )
            } else {
                ask(nothing(), Ask::Clock, Stage::PageClock { want, config })
            }
        },
        (Stage::PageClock { want, config }, Answer::Clock(now)) => ask(
            nothing(),
            Ask::Records,
            Stage::PageRecords { want, config, day: today(now) },
        ),
        (Stage::PageRecords { want, config, day }, Answer::Records(rows)) => {
            let unreadable = rows.is_none();
            let known = read_rows(rows);
            match edition {
                Edition::Importing => ask(
                    nothing(),
                    Ask::Fx,
                    Stage::PageFx {
                        sight: Sight { want, config, day, nodes: known, unreadable: false },
                    },
                ),
                Edition::Reconciling => if unreadable {
                    ask(
                        log(3, "finance-stats: 读插件记录失败,本轮跳过对账"),
                        Ask::Fx,
                        Stage::PageFx {
                            sight: Sight { want, config, day, nodes: known, unreadable: true },
                        },
                    )
                } else {
                    ask(nothing(), Ask::Hosts, Stage::PageHosts { want, config, day, known })
                },
            }
        },
        (Stage::PageHosts { want, config, day, known }, Answer::Hosts { count, nodes }) => match hear(count, nodes) {
            Some(list) => {
                let (nodes, effects) = reconcile_with(&list, known, &day);
                ask(
                    effects,
                    Ask::Fx,
                    Stage::PageFx { sight: Sight { want, config, day, nodes, unreadable: false } },
                )
            },
            None => ask(
                log(2, "finance-stats: nodes_query 失败,本轮跳过节点对账"),
                Ask::Fx,
                Stage::PageFx {
                    sight: Sight { want, config, day, nodes: known, unreadable: false },
                },
            ),
        },
        (Stage::PageFx { sight }, Answer::Fx(fx)) => if fx.is_none() && sight.want.fetch {
            let target = sight.config.target_currency.clone();
            fetch(nothing(), target, Purpose::Page { sight })
        } else {
            ask(nothing(), Ask::FxStatus, Stage::PageStatus { sight, fx })
        },
        (Stage::PageFxAgain { sight }, Answer::Fx(fx)) => ask(
            nothing(),
            Ask::FxStatus,
            Stage::PageStatus { sight, fx },
        ),
        (Stage::PageStatus { sight, fx }, Answer::FxStatus(failure)) => match edition {
            Edition::Importing => {
                let window: i64 = sight.config.threshold_days;
                show(edition, sight, fx, failure, window)
            },
            Edition::Reconciling => ask(
                nothing(),
                Ask::Threshold,
                Stage::PageThreshold { sight, fx, failure },
            ),
        },
        (Stage::PageThreshold { sight, fx, failure }, Answer::Threshold { count, buffer }) => {
            let window: i64 = sight.config.threshold_days(count, buffer.as_slice());
            show(edition, sight, fx, failure, window)
        },
        (Stage::PageSums { data, missing, toast }, Answer::Sums { annual, remaining }) => {
            let mut data = data;
            let ghost before = data@;
            data.sums = Some(Sums { annual, remaining, missing });
            assert(data@ == PageView { sums: Some(data.sums->0@), ..before });
            finish(edition, &data, toast)
        },
        (_, _) => stop(nothing()),
    }
}

fn action_step(edition: Edition, stage: Stage, answer: Answer) -> (s: Step)
    requires
        stage is SetCurrency || stage is Refresh || stage is RefreshStatus || stage is RefreshFx
            || stage is SaveNode,
        stage.takes(Edition::Importing, answer),
    ensures
        action_follows(edition, stage, answer, s),
        s.turn matches Turn::Ask { stage: next, .. } ==> next.valid(),
{
    match (stage, answer) {
        (Stage::SetCurrency { value }, Answer::Config(found)) => match value {
            Some(code) => {
                let mut config = Config::load(found);
                config.target_currency = code.clone();
                fetch(only(Effect::SaveConfig(config)), code, Purpose::SetCurrency)
            },
            None => start_page_for(edition, "success", "已切换币种"),
        },
        (Stage::Refresh, Answer::Config(found)) => {
            let config = Config::load(found);
            fetch(nothing(), config.target_currency, Purpose::Refresh)
        },
        (Stage::RefreshStatus, Answer::FxStatus(status)) => ask(
            nothing(),
            Ask::Fx,
            Stage::RefreshFx { status },
        ),
        (Stage::RefreshFx { status }, Answer::Fx(fx)) => {
            let words = refresh_fx_failure_toast(&status, fx.is_some());
            start_page(nothing(), false, "error", words.as_str())
        },
        (Stage::SaveNode { id, edit }, Answer::Node(found)) => match found {
            Some(node) => {
                let node = apply_edit(node, edit);
                start_page(only(Effect::SaveNode { id, node }), false, "success", "已保存")
            },
            None => start_page(nothing(), false, "error", "节点记录不存在，未保存"),
        },
        (_, _) => stop(nothing()),
    }
}

fn event_step(stage: Stage, answer: Answer) -> (s: Step)
    requires
        stage is EventNode || stage is EventClock,
        stage.takes(Edition::Reconciling, answer),
    ensures
        event_follows(stage, answer, s),
        s.turn matches Turn::Ask { stage: next, .. } ==> next.valid(),
{
    match (stage, answer) {
        (Stage::EventNode { event }, Answer::Node(stored)) => ask(
            nothing(),
            Ask::Clock,
            Stage::EventClock { event, stored },
        ),
        (Stage::EventClock { event, stored }, Answer::Clock(now)) => {
            let day = today(now);
            stop(handle_node_event(event, &stored, &day))
        },
        (_, _) => stop(nothing()),
    }
}

fn swept(effects: Vec<Effect>, freed: i64, pruned: i64) -> (s: Step)
    ensures
        replies(s, effects_view(effects@), sweep_reply(freed, pruned)),
{
    let reply = Fields::new().with("freed_bytes", Json::Int(freed)).with(
        "pruned",
        Json::Int(pruned),
    ).done();
    Step { effects, turn: Turn::Done { reply: Some(reply) } }
}

fn sweep_on(effects: Vec<Effect>, ids: Vec<i64>, at: usize, freed: i64) -> (s: Step)
    ensures
        at <= ids@.len() ==> sweeps(s, effects_view(effects@), ids@, at as int, freed),
        s.turn matches Turn::Ask { stage: next, .. } ==> next.valid(),
{
    if at < ids.len() {
        let id: i64 = ids[at];
        ask(effects, Ask::Size { id }, Stage::SweepSize { ids, at, freed })
    } else {
        swept(effects, freed, ids.len() as i64)
    }
}

fn sweep_step(stage: Stage, answer: Answer) -> (s: Step)
    requires
        stage is SweepHosts || stage is SweepRecords || stage is SweepSize,
        stage.valid(),
        stage.takes(Edition::Importing, answer),
    ensures
        sweep_follows(stage, answer, s),
        s.turn matches Turn::Ask { stage: next, .. } ==> next.valid(),
{
    match (stage, answer) {
        (Stage::SweepHosts, Answer::Entries { count, body }) => {
            match host_entries(count, body.as_str()) {
                Some(list) => ask(nothing(), Ask::Records, Stage::SweepRecords { entries: list }),
                None => swept(nothing(), 0, 0),
            }
        },
        (Stage::SweepRecords { entries }, Answer::Records(rows)) => {
            let known = read_rows(rows);
            let ids = stale_records(&known, &entries);
            sweep_on(nothing(), ids, 0, 0)
        },
        (Stage::SweepSize { ids, at, freed }, Answer::Size(size)) => {
            let total: i64 = match size {
                Some(n) => freed.wrapping_add(n as i64),
                None => freed,
            };
            let id: i64 = ids[at];
            assert(at < ids.len());
            sweep_on(only(Effect::DeleteNode { id }), ids, at + 1, total)
        },
        (_, _) => stop(nothing()),
    }
}

// ---------------------------------------------------------------------------
// The plugin's entries
// ---------------------------------------------------------------------------

/// Begins a tick: rates, the host's nodes, expiry dates.
pub fn on_tick() -> (s: Step)
    ensures
        asks(s, no_effects(), Ask::Config, Stage::TickConfig),
        s.turn matches Turn::Ask { stage: next, .. } ==> next.valid(),
{
    ask(nothing(), Ask::Config, Stage::TickConfig)
}

/// Begins to make the page. Opening it is the one occasion on which rates are fetched in passing,
/// and only where there are none.
pub fn render_page() -> (s: Step)
    ensures
        begins_page(s, no_effects(), true, None),
        s.turn matches Turn::Ask { stage: next, .. } ==> next.valid(),
{
    ask(
        nothing(),
        Ask::Config,
        Stage::PageConfig { want: Want { fetch: true, toast: None } },
    )
}

/// Whether a step begins to serve a request.
pub open spec fn serves(edition: Edition, s: Step, request: RequestView) -> bool {
    match request {
        RequestView::SetCurrency { value } => {
            &&& effects_view(s.effects@) == no_effects()
            &&& s.turn matches Turn::Ask {
                ask: Ask::Config,
                stage: Stage::SetCurrency { value: v },
            }
            &&& opt_text(v) == value
        },
        RequestView::RefreshFx => asks(s, no_effects(), Ask::Config, Stage::Refresh),
        RequestView::SaveNode { id: Some(node), edit } => {
            &&& effects_view(s.effects@) == no_effects()
            &&& s.turn matches Turn::Ask {
                ask: Ask::Node { id },
                stage: Stage::SaveNode { id: to, edit: e },
            }
            &&& id == node
            &&& to == node
            &&& e@ == edit
        },
        RequestView::SaveNode { id: None, .. } => begins_page(
            s,
            no_effects(),
            false,
            hint_for(edition, "error"@, "未指定要保存的节点"@),
        ),
        RequestView::Other => begins_page(s, no_effects(), false, None),
    }
}

/// Begins to serve a request that has been read.
pub fn handle_action(edition: Edition, request: Request) -> (s: Step)
    ensures
        serves(edition, s, request@),
        s.turn matches Turn::Ask { stage: next, .. } ==> next.valid(),
{
    match request {
        Request::SetCurrency { value } => ask(nothing(), Ask::Config, Stage::SetCurrency { value }),
        Request::RefreshFx => ask(nothing(), Ask::Config, Stage::Refresh),
        Request::SaveNode { id, edit } => match id {
            Some(id) => ask(nothing(), Ask::Node { id }, Stage::SaveNode { id, edit }),
            None => start_page_for(edition, "error", "未指定要保存的节点"),
        },
        Request::Other => ask(
            nothing(),
            Ask::Config,
            Stage::PageConfig { want: Want { fetch: false, toast: None } },
        ),
    }
}

/// Begins to serve a request from the page.
pub fn on_action(edition: Edition, input: &str) -> (s: Step)
    ensures
        serves(edition, s, request_in(input@)),
        s.turn matches Turn::Ask { stage: next, .. } ==> next.valid(),
{
    handle_action(edition, read_request(input))
}

/// Whether a step begins to take in the host's word of a node.
pub open spec fn begins_event(edition: Edition, event: Option<NodeEvent>, s: Step) -> bool {
    match (edition, event) {
        (Edition::Reconciling, Some(e)) => match subject(e) {
            Some(id) => asks(s, no_effects(), Ask::Node { id }, Stage::EventNode { event: e }),
            None => stops(s, no_effects()),
        },
        _ => stops(s, no_effects()),
    }
}

/// Begins to take in the host's word of a node. The importing edition does not listen, and what
/// cannot be read, or is made up, is passed over.
pub fn on_event(edition: Edition, event: Option<NodeEvent>) -> (s: Step)
    ensures
        match (edition, event) {
            (Edition::Reconciling, Some(e)) => match subject(e) {
                Some(id) => asks(s, no_effects(), Ask::Node { id }, Stage::EventNode { event: e }),
                None => stops(s, no_effects()),
            },
            _ => stops(s, no_effects()),
        },
        begins_event(edition, event, s),
        s.turn matches Turn::Ask { stage: next, .. } ==> next.valid(),
{
    match (edition, event) {
        (Edition::Reconciling, Some(event)) => match event_subject(&event) {
            Some(id) => ask(nothing(), Ask::Node { id }, Stage::EventNode { event }),
            None => stop(nothing()),
        },
        (_, _) => stop(nothing()),
    }
}

/// Begins to clear out the records whose nodes the host has no longer.
pub fn on_cleanup() -> (s: Step)
    ensures
        asks(s, no_effects(), Ask::Hosts, Stage::SweepHosts),
        s.turn matches Turn::Ask { stage: next, .. } ==> next.valid(),
{
    ask(nothing(), Ask::Hosts, Stage::SweepHosts)
}

/// Goes on with the host's answer to what a stage asked for.
pub fn advance(edition: Edition, stage: Stage, answer: Answer) -> (s: Step)
    requires
        stage.valid(),
        stage.takes(edition, answer),
    ensures
        follows(edition, stage, answer, s),
        s.turn matches Turn::Ask { stage: next, .. } ==> next.valid(),
{
    match &stage {
        Stage::TickConfig
        | Stage::TickThreshold { .. }
        | Stage::TickRecords { .. }
        | Stage::TickHosts { .. } => tick_step(
            edition,
            stage,
            answer,
        ),
        Stage::ImportClock { .. }
        | Stage::ImportRecords { .. }
        | Stage::ImportHosts { .. } => import_step(
            stage,
            answer,
        ),
        Stage::FetchRates { .. } | Stage::FetchClock { .. } => fetch_step(edition, stage, answer),
        Stage::SetCurrency { .. }
        | Stage::Refresh
        | Stage::RefreshStatus
        | Stage::RefreshFx { .. }
        | Stage::SaveNode { .. } => action_step(
            edition,
            stage,
            answer,
        ),
        Stage::EventNode { .. } | Stage::EventClock { .. } => event_step(stage, answer),
        Stage::SweepHosts | Stage::SweepRecords { .. } | Stage::SweepSize { .. } => sweep_step(
            stage,
            answer,
        ),
        _ => page_step(edition, stage, answer),
    }
}

} // verus!
