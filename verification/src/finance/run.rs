//! Whole runs: what comes of all the answers together.
use vstd::prelude::*;

use crate::finance::effect::{
    effects_view, logged, no_effects, ConfigView, EffectView, FxStatusView,
};
use crate::finance::expiry::scan;
use crate::finance::page::{failure_seen, page, PageView, SumsView};
use crate::finance::rates::{failure_of, fetch_log, outcome};
use crate::finance::record::{
    day_at, nodes_view, records_in, threshold_of, Config, Edition, Fx, FxStatus, NodeView, Row,
};
use crate::finance::roster::{aligned, alignment, HostNode};
use crate::finance::session::{follows, loaded, online_in, up, Answer, Ask, Stage, Step, Turn};
use crate::finance::stats::sums;
use crate::finance::takeover::{answered, import_effects};
use crate::heap::setting_in;
use crate::json::{rates_under, JsonView};
use crate::text::texts;

verus! {

/// Whether steps follow from each other, from a first stage on, with an answer for each.
pub open spec fn leads(edition: Edition, first: Stage, answers: Seq<Answer>, steps: Seq<Step>) -> bool
    decreases answers.len(),
{
    if answers.len() == 0 {
        steps.len() == 0
    } else {
        &&& steps.len() > 0
        &&& follows(edition, first, answers[0], steps[0])
        &&& match steps[0].turn {
            Turn::Ask { stage, .. } => leads(edition, stage, answers.skip(1), steps.skip(1)),
            Turn::Done { .. } => answers.len() == 1 && steps.len() == 1,
        }
    }
}

/// Everything that some steps change, in order.
pub open spec fn all_effects(steps: Seq<Step>) -> Seq<EffectView>
    decreases steps.len(),
{
    if steps.len() == 0 {
        no_effects()
    } else {
        effects_view(steps[0].effects@) + all_effects(steps.skip(1))
    }
}

/// The threshold in force under some settings and the panel's.
pub open spec fn threshold_under(config: ConfigView, setting: Option<Seq<char>>) -> i64 {
    match threshold_of(setting) {
        Some(d) => d,
        None => config.threshold_days,
    }
}

/// What a tick changes about rates: it logs that it fetches them, and takes new ones in or writes
/// the word of their failure down.
pub open spec fn tick_rates(
    edition: Edition,
    target: Seq<char>,
    code: i32,
    body: Seq<char>,
    now: i64,
) -> Seq<EffectView> {
    let parsed = rates_under(body, "rates"@);
    logged(1, fetch_log(target)) + outcome(edition, target, code as int, parsed, now) + (
    if failure_of(code as int, parsed) is None {
        logged(1, "finance-stats: 汇率已更新"@)
    } else {
        no_effects()
    })
}

/// A tick of the reconciling edition in full: new rates or the word of their failure, then the
/// records aligned with the host, then expiry dates moved on and announced. Nothing else changes.
pub proof fn law_a_tick_in_full(
    found: Option<Config>,
    size: i32,
    buffer: Vec<u8>,
    code: i32,
    body: String,
    now: i64,
    rows: Vec<Row>,
    count: i32,
    host: Vec<HostNode>,
    steps: Seq<Step>,
)
    requires
        count >= 0,
        leads(
            Edition::Reconciling,
            Stage::TickConfig,
            seq![
                Answer::Config(found),
                Answer::Threshold { count: size, buffer },
                Answer::Rates { code, body },
                Answer::Clock(now),
                Answer::Records(Some(rows)),
                Answer::Hosts { count, nodes: Some(host) },
            ],
            steps,
        ),
    ensures
        steps.last().turn == (Turn::Done { reply: None }),
        all_effects(steps) == tick_rates(
            Edition::Reconciling,
            loaded(found).target_currency,
            code,
            body@,
            now,
        ) + alignment(records_in(rows@), host@, day_at(now as int)) + scan(
            Edition::Reconciling,
            aligned(records_in(rows@), host@, day_at(now as int)),
            up(host@),
            day_at(now as int),
            threshold_under(loaded(found), setting_in(size as int, buffer@)),
        ),
{
    let all = seq![
        Answer::Config(found),
        Answer::Threshold { count: size, buffer },
        Answer::Rates { code, body },
        Answer::Clock(now),
        Answer::Records(Some(rows)),
        Answer::Hosts { count, nodes: Some(host) },
    ];
    reveal_with_fuel(leads, 8);
    reveal_with_fuel(all_effects, 8);
    let a1 = all.skip(1);
    let a2 = a1.skip(1);
    let a3 = a2.skip(1);
    let a4 = a3.skip(1);
    let a5 = a4.skip(1);
    let s1 = steps.skip(1);
    let s2 = s1.skip(1);
    let s3 = s2.skip(1);
    let s4 = s3.skip(1);
    let s5 = s4.skip(1);
    let s6 = s5.skip(1);
    assert(a5.skip(1).len() == 0);
    let first = effects_view(steps[0].effects@);
    assert(first == no_effects());
    let told = effects_view(s1[0].effects@);
    assert(told == logged(1, fetch_log(loaded(found).target_currency)));
    assert(effects_view(s2[0].effects@) == no_effects());
    assert(effects_view(s4[0].effects@) == no_effects());
    assert(s5[0].turn is Done);
    assert(s5.len() == 1);
    assert(s6.len() == 0);
    assert(steps.last() == s5[0]);
    assert(all_effects(s6) == no_effects());
    let fetched = effects_view(s3[0].effects@);
    let rest = effects_view(s5[0].effects@);
    assert(all_effects(s5) == rest);
    assert(all_effects(s4) == rest);
    assert(all_effects(s3) == fetched + rest);
    assert(all_effects(s2) == fetched + rest);
    assert(all_effects(s1) == told + fetched + rest);
    assert(all_effects(steps) == told + fetched + rest);
}

/// A tick of the importing edition in full, once the host's nodes have been taken over: new rates
/// or the word of their failure, then expiry dates moved on and announced. Nothing else changes.
pub proof fn law_an_importing_tick_in_full(
    config: Config,
    code: i32,
    body: String,
    now: i64,
    rows: Vec<Row>,
    count: i32,
    host: String,
    steps: Seq<Step>,
)
    requires
        config.imported,
        leads(
            Edition::Importing,
            Stage::TickConfig,
            seq![
                Answer::Config(Some(config)),
                Answer::Rates { code, body },
                Answer::Clock(now),
                Answer::Records(Some(rows)),
                Answer::Entries { count, body: host },
            ],
            steps,
        ),
    ensures
        steps.last().turn == (Turn::Done { reply: None }),
        all_effects(steps) == tick_rates(
            Edition::Importing,
            config.target_currency@,
            code,
            body@,
            now,
        ) + scan(
            Edition::Importing,
            records_in(rows@),
            online_in(answered(count as int, host@)),
            day_at(now as int),
            config.threshold_days,
        ),
{
    let all = seq![
        Answer::Config(Some(config)),
        Answer::Rates { code, body },
        Answer::Clock(now),
        Answer::Records(Some(rows)),
        Answer::Entries { count, body: host },
    ];
    reveal_with_fuel(leads, 7);
    reveal_with_fuel(all_effects, 7);
    let a1 = all.skip(1);
    let a2 = a1.skip(1);
    let a3 = a2.skip(1);
    let a4 = a3.skip(1);
    let s1 = steps.skip(1);
    let s2 = s1.skip(1);
    let s3 = s2.skip(1);
    let s4 = s3.skip(1);
    let s5 = s4.skip(1);
    assert(a4.skip(1).len() == 0);
    let told = effects_view(steps[0].effects@);
    assert(told == logged(1, fetch_log(config.target_currency@)));
    assert(effects_view(s1[0].effects@) == no_effects());
    assert(effects_view(s3[0].effects@) == no_effects());
    assert(s4[0].turn is Done);
    assert(s4.len() == 1);
    assert(s5.len() == 0);
    assert(steps.last() == s4[0]);
    assert(all_effects(s5) == no_effects());
    let fetched = effects_view(s2[0].effects@);
    let rest = effects_view(s4[0].effects@);
    assert(all_effects(s4) == rest);
    assert(all_effects(s3) == rest);
    assert(all_effects(s2) == fetched + rest);
    assert(all_effects(s1) == fetched + rest);
    assert(all_effects(steps) == told + fetched + rest);
}

/// The first tick of the importing edition in full: the host's nodes are taken over, where it
/// answers, and then everything is as in any other tick.
pub proof fn law_a_first_importing_tick_in_full(
    found: Option<Config>,
    start: i64,
    before: Vec<Row>,
    heard: i32,
    hosts: String,
    code: i32,
    body: String,
    now: i64,
    rows: Vec<Row>,
    count: i32,
    host: String,
    steps: Seq<Step>,
)
    requires
        !loaded(found).imported,
        leads(
            Edition::Importing,
            Stage::TickConfig,
            seq![
                Answer::Config(found),
                Answer::Clock(start),
                Answer::Records(Some(before)),
                Answer::Entries { count: heard, body: hosts },
                Answer::Rates { code, body },
                Answer::Clock(now),
                Answer::Records(Some(rows)),
                Answer::Entries { count, body: host },
            ],
            steps,
        ),
    ensures
        steps.last().turn == (Turn::Done { reply: None }),
        all_effects(steps) == import_effects(
            loaded(found),
            records_in(before@),
            answered(heard as int, hosts@),
            day_at(start as int),
        ) + tick_rates(
            Edition::Importing,
            loaded(found).target_currency,
            code,
            body@,
            now,
        ) + scan(
            Edition::Importing,
            records_in(rows@),
            online_in(answered(count as int, host@)),
            day_at(now as int),
            loaded(found).threshold_days,
        ),
{
    let all = seq![
        Answer::Config(found),
        Answer::Clock(start),
        Answer::Records(Some(before)),
        Answer::Entries { count: heard, body: hosts },
        Answer::Rates { code, body },
        Answer::Clock(now),
        Answer::Records(Some(rows)),
        Answer::Entries { count, body: host },
    ];
    reveal_with_fuel(leads, 10);
    reveal_with_fuel(all_effects, 10);
    let a1 = all.skip(1);
    let a2 = a1.skip(1);
    let a3 = a2.skip(1);
    let a4 = a3.skip(1);
    let a5 = a4.skip(1);
    let a6 = a5.skip(1);
    let a7 = a6.skip(1);
    let s1 = steps.skip(1);
    let s2 = s1.skip(1);
    let s3 = s2.skip(1);
    let s4 = s3.skip(1);
    let s5 = s4.skip(1);
    let s6 = s5.skip(1);
    let s7 = s6.skip(1);
    let s8 = s7.skip(1);
    assert(a7.skip(1).len() == 0);
    assert(effects_view(steps[0].effects@) == no_effects());
    assert(effects_view(s1[0].effects@) == no_effects());
    assert(effects_view(s2[0].effects@) == no_effects());
    let taken = effects_view(s3[0].effects@);
    assert(effects_view(s4[0].effects@) == no_effects());
    let fetched = effects_view(s5[0].effects@);
    assert(effects_view(s6[0].effects@) == no_effects());
    let rest = effects_view(s7[0].effects@);
    assert(s7[0].turn is Done);
    assert(s7.len() == 1);
    assert(s8.len() == 0);
    assert(steps.last() == s7[0]);
    assert(all_effects(s8) == no_effects());
    assert(all_effects(s7) == rest);
    assert(all_effects(s6) == rest);
    assert(all_effects(s5) == fetched + rest);
    assert(all_effects(s4) == fetched + rest);
    assert(all_effects(s3) == taken + fetched + rest);
    assert(all_effects(steps) == taken + fetched + rest);
}

/// A page of the reconciling edition in full, where there are rates: it shows the aligned records
/// and the totals in their base, and changes nothing but what aligning takes.
pub proof fn law_a_page_in_full(
    first: Stage,
    found: Option<Config>,
    now: i64,
    rows: Vec<Row>,
    count: i32,
    host: Vec<HostNode>,
    fx: Fx,
    failure: Option<FxStatus>,
    size: i32,
    buffer: Vec<u8>,
    annual: String,
    remaining: String,
    steps: Seq<Step>,
)
    requires
        count >= 0,
        first matches Stage::PageConfig { want } && want.toast is None,
        leads(
            Edition::Reconciling,
            first,
            seq![
                Answer::Config(found),
                Answer::Clock(now),
                Answer::Records(Some(rows)),
                Answer::Hosts { count, nodes: Some(host) },
                Answer::Fx(Some(fx)),
                Answer::FxStatus(failure),
                Answer::Threshold { count: size, buffer },
                Answer::Sums { annual, remaining },
            ],
            steps,
        ),
    ensures
        all_effects(steps) == alignment(records_in(rows@), host@, day_at(now as int)),
        steps.last().turn matches Turn::Done { reply: Some(json) } && json@ == shown_page(
            loaded(found),
            threshold_under(loaded(found), setting_in(size as int, buffer@)),
            records_in(rows@),
            host@,
            fx,
            failure_seen(failure),
            annual@,
            remaining@,
            now,
        ),
{
    let all = seq![
        Answer::Config(found),
        Answer::Clock(now),
        Answer::Records(Some(rows)),
        Answer::Hosts { count, nodes: Some(host) },
        Answer::Fx(Some(fx)),
        Answer::FxStatus(failure),
        Answer::Threshold { count: size, buffer },
        Answer::Sums { annual, remaining },
    ];
    reveal_with_fuel(leads, 10);
    reveal_with_fuel(all_effects, 10);
    let a1 = all.skip(1);
    let a2 = a1.skip(1);
    let a3 = a2.skip(1);
    let a4 = a3.skip(1);
    let a5 = a4.skip(1);
    let a6 = a5.skip(1);
    let a7 = a6.skip(1);
    let s1 = steps.skip(1);
    let s2 = s1.skip(1);
    let s3 = s2.skip(1);
    let s4 = s3.skip(1);
    let s5 = s4.skip(1);
    let s6 = s5.skip(1);
    let s7 = s6.skip(1);
    let s8 = s7.skip(1);
    assert(a7.skip(1).len() == 0);
    assert(effects_view(steps[0].effects@) == no_effects());
    assert(effects_view(s1[0].effects@) == no_effects());
    assert(effects_view(s2[0].effects@) == no_effects());
    let made = effects_view(s3[0].effects@);
    assert(effects_view(s4[0].effects@) == no_effects());
    assert(effects_view(s5[0].effects@) == no_effects());
    assert(effects_view(s6[0].effects@) == no_effects());
    assert(s7[0].turn is Done);
    assert(s7.len() == 1);
    assert(steps.last() == s7[0]);
    assert(all_effects(s8) == no_effects());
    assert(all_effects(s4) == no_effects());
    assert(all_effects(s3) == made);
    assert(all_effects(steps) == made);
}

/// A page of the reconciling edition in full, where there are no rates and none may be fetched: it
/// shows the aligned records without totals, and why there are no rates.
pub proof fn law_a_page_without_rates_in_full(
    first: Stage,
    found: Option<Config>,
    now: i64,
    rows: Vec<Row>,
    count: i32,
    host: Vec<HostNode>,
    failure: Option<FxStatus>,
    size: i32,
    buffer: Vec<u8>,
    steps: Seq<Step>,
)
    requires
        count >= 0,
        first matches Stage::PageConfig { want } && want.toast is None && !want.fetch,
        leads(
            Edition::Reconciling,
            first,
            seq![
                Answer::Config(found),
                Answer::Clock(now),
                Answer::Records(Some(rows)),
                Answer::Hosts { count, nodes: Some(host) },
                Answer::Fx(None),
                Answer::FxStatus(failure),
                Answer::Threshold { count: size, buffer },
            ],
            steps,
        ),
    ensures
        all_effects(steps) == alignment(records_in(rows@), host@, day_at(now as int)),
        steps.last().turn matches Turn::Done { reply: Some(json) } && json@ == page(
            Edition::Reconciling,
            PageView {
                target: loaded(found).target_currency,
                window: threshold_under(loaded(found), setting_in(size as int, buffer@)),
                nodes: aligned(records_in(rows@), host@, day_at(now as int)),
                unreadable: false,
                rates: None,
                failure: failure_seen(failure),
                sums: None,
                day: day_at(now as int),
            },
        ),
{
    let all = seq![
        Answer::Config(found),
        Answer::Clock(now),
        Answer::Records(Some(rows)),
        Answer::Hosts { count, nodes: Some(host) },
        Answer::Fx(None),
        Answer::FxStatus(failure),
        Answer::Threshold { count: size, buffer },
    ];
    reveal_with_fuel(leads, 9);
    reveal_with_fuel(all_effects, 9);
    let a1 = all.skip(1);
    let a2 = a1.skip(1);
    let a3 = a2.skip(1);
    let a4 = a3.skip(1);
    let a5 = a4.skip(1);
    let a6 = a5.skip(1);
    let s1 = steps.skip(1);
    let s2 = s1.skip(1);
    let s3 = s2.skip(1);
    let s4 = s3.skip(1);
    let s5 = s4.skip(1);
    let s6 = s5.skip(1);
    let s7 = s6.skip(1);
    assert(a6.skip(1).len() == 0);
    assert(effects_view(steps[0].effects@) == no_effects());
    assert(effects_view(s1[0].effects@) == no_effects());
    assert(effects_view(s2[0].effects@) == no_effects());
    let made = effects_view(s3[0].effects@);
    assert(effects_view(s4[0].effects@) == no_effects());
    assert(effects_view(s5[0].effects@) == no_effects());
    assert(effects_view(s6[0].effects@) == no_effects());
    assert(s6[0].turn is Done);
    assert(s6.len() == 1);
    assert(steps.last() == s6[0]);
    assert(all_effects(s7) == no_effects());
    assert(all_effects(s4) == no_effects());
    assert(all_effects(s3) == made);
    assert(all_effects(steps) == made);
}

/// A page of the reconciling edition in full, where the records cannot be read: it says so, shows no
/// node, and changes nothing but the log.
pub proof fn law_an_unreadable_page_in_full(
    first: Stage,
    found: Option<Config>,
    now: i64,
    failure: Option<FxStatus>,
    size: i32,
    buffer: Vec<u8>,
    steps: Seq<Step>,
)
    requires
        first matches Stage::PageConfig { want } && want.toast is None && !want.fetch,
        leads(
            Edition::Reconciling,
            first,
            seq![
                Answer::Config(found),
                Answer::Clock(now),
                Answer::Records(None),
                Answer::Fx(None),
                Answer::FxStatus(failure),
                Answer::Threshold { count: size, buffer },
            ],
            steps,
        ),
    ensures
        all_effects(steps) == logged(3, "finance-stats: 读插件记录失败,本轮跳过对账"@),
        steps.last().turn matches Turn::Done { reply: Some(json) } && json@ == page(
            Edition::Reconciling,
            PageView {
                target: loaded(found).target_currency,
                window: threshold_under(loaded(found), setting_in(size as int, buffer@)),
                nodes: Seq::empty(),
                unreadable: true,
                rates: None,
                failure: failure_seen(failure),
                sums: None,
                day: day_at(now as int),
            },
        ),
{
    let all = seq![
        Answer::Config(found),
        Answer::Clock(now),
        Answer::Records(None),
        Answer::Fx(None),
        Answer::FxStatus(failure),
        Answer::Threshold { count: size, buffer },
    ];
    reveal_with_fuel(leads, 8);
    reveal_with_fuel(all_effects, 8);
    let a1 = all.skip(1);
    let a2 = a1.skip(1);
    let a3 = a2.skip(1);
    let a4 = a3.skip(1);
    let a5 = a4.skip(1);
    let s1 = steps.skip(1);
    let s2 = s1.skip(1);
    let s3 = s2.skip(1);
    let s4 = s3.skip(1);
    let s5 = s4.skip(1);
    let s6 = s5.skip(1);
    assert(a5.skip(1).len() == 0);
    assert(effects_view(steps[0].effects@) == no_effects());
    assert(effects_view(s1[0].effects@) == no_effects());
    let told = effects_view(s2[0].effects@);
    assert(effects_view(s3[0].effects@) == no_effects());
    assert(effects_view(s4[0].effects@) == no_effects());
    assert(effects_view(s5[0].effects@) == no_effects());
    assert(s5[0].turn is Done);
    assert(s5.len() == 1);
    assert(steps.last() == s5[0]);
    assert(all_effects(s6) == no_effects());
    assert(all_effects(s3) == no_effects());
    assert(all_effects(s2) == told);
    assert(all_effects(steps) == told);
}

/// A page of the importing edition in full, once the host's nodes have been taken over and where
/// there are rates: it shows the records as they are kept and the totals in the base of the rates,
/// lists what expires within the recorded threshold, and changes nothing.
pub proof fn law_an_importing_page_in_full(
    first: Stage,
    config: Config,
    now: i64,
    rows: Vec<Row>,
    fx: Fx,
    failure: Option<FxStatus>,
    annual: String,
    remaining: String,
    steps: Seq<Step>,
)
    requires
        config.imported,
        first matches Stage::PageConfig { want } && want.toast is None,
        leads(
            Edition::Importing,
            first,
            seq![
                Answer::Config(Some(config)),
                Answer::Clock(now),
                Answer::Records(Some(rows)),
                Answer::Fx(Some(fx)),
                Answer::FxStatus(failure),
                Answer::Sums { annual, remaining },
            ],
            steps,
        ),
    ensures
        all_effects(steps) == no_effects(),
        steps.last().turn matches Turn::Done { reply: Some(json) } && json@ == page(
            Edition::Importing,
            PageView {
                target: config.target_currency@,
                window: config.threshold_days,
                nodes: records_in(rows@),
                unreadable: false,
                rates: Some((fx.base@, fx.fetched_at)),
                failure: failure_seen(failure),
                sums: Some(
                    SumsView {
                        annual: annual@,
                        remaining: remaining@,
                        missing: sums(
                            Edition::Importing,
                            fx@,
                            records_in(rows@),
                            day_at(now as int),
                        ).missing,
                    },
                ),
                day: day_at(now as int),
            },
        ),
{
    let all = seq![
        Answer::Config(Some(config)),
        Answer::Clock(now),
        Answer::Records(Some(rows)),
        Answer::Fx(Some(fx)),
        Answer::FxStatus(failure),
        Answer::Sums { annual, remaining },
    ];
    reveal_with_fuel(leads, 8);
    reveal_with_fuel(all_effects, 8);
    let a1 = all.skip(1);
    let a2 = a1.skip(1);
    let a3 = a2.skip(1);
    let a4 = a3.skip(1);
    let a5 = a4.skip(1);
    let s1 = steps.skip(1);
    let s2 = s1.skip(1);
    let s3 = s2.skip(1);
    let s4 = s3.skip(1);
    let s5 = s4.skip(1);
    let s6 = s5.skip(1);
    assert(a5.skip(1).len() == 0);
    assert(effects_view(steps[0].effects@) == no_effects());
    assert(effects_view(s1[0].effects@) == no_effects());
    assert(effects_view(s2[0].effects@) == no_effects());
    assert(effects_view(s3[0].effects@) == no_effects());
    assert(effects_view(s4[0].effects@) == no_effects());
    assert(effects_view(s5[0].effects@) == no_effects());
    assert(s5[0].turn is Done);
    assert(s5.len() == 1);
    assert(steps.last() == s5[0]);
    assert(all_effects(s6) == no_effects());
    assert(all_effects(steps) == no_effects());
}

/// The sums that are asked for while a page is made are those of the nodes that it shows, at the
/// rates that it names and on its day, and what they come to goes onto the page unchanged.
pub proof fn law_the_sums_are_those_of_the_page(
    edition: Edition,
    stage: Stage,
    answer: Answer,
    s: Step,
)
    requires
        follows(edition, stage, answer, s),
    ensures
        s.turn matches Turn::Ask {
            ask: Ask::Sums { totals: parts },
            stage: Stage::PageSums { data, missing, .. },
        } ==> exists|fx: Fx|
            {
                &&& parts@ == #[trigger] sums(edition, fx@, data@.nodes, data@.day)
                &&& data@.rates == Some((fx.base@, fx.fetched_at))
                &&& texts(missing@) == parts@.missing
                &&& data@.sums is None
            },
        stage matches Stage::PageSums { data, missing, toast: None } ==> (
        answer matches Answer::Sums { annual, remaining } && s.turn matches Turn::Done {
            reply: Some(json),
        } && json@ == page(
            edition,
            PageView {
                sums: Some(
                    SumsView {
                        annual: annual@,
                        remaining: remaining@,
                        missing: texts(missing@),
                    },
                ),
                ..data@
            },
        )),
{
    match (stage, answer) {
        (Stage::PageStatus { sight, fx: Some(fx) }, _) => {
            assert(s.turn matches Turn::Ask { ask: Ask::Sums { totals: parts }, .. } ==> parts@
                == sums(edition, fx@, nodes_view(sight.nodes@), sight.day));
        },
        (Stage::PageThreshold { sight, fx: Some(fx), .. }, _) => {
            assert(s.turn matches Turn::Ask { ask: Ask::Sums { totals: parts }, .. } ==> parts@
                == sums(edition, fx@, nodes_view(sight.nodes@), sight.day));
        },
        _ => {},
    }
}

/// The page that shows aligned records and their totals.
pub open spec fn shown_page(
    config: ConfigView,
    window: i64,
    known: Seq<(i64, NodeView)>,
    host: Seq<HostNode>,
    fx: Fx,
    failure: Option<FxStatusView>,
    annual: Seq<char>,
    remaining: Seq<char>,
    now: i64,
) -> JsonView {
    let day = day_at(now as int);
    let nodes = aligned(known, host, day);
    page(
        Edition::Reconciling,
        PageView {
            target: config.target_currency,
            window,
            nodes,
            unreadable: false,
            rates: Some((fx.base@, fx.fetched_at)),
            failure,
            sums: Some(
                SumsView {
                    annual,
                    remaining,
                    missing: sums(Edition::Reconciling, fx@, nodes, day).missing,
                },
            ),
            day,
        },
    )
}

} // verus!
