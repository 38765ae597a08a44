//! The statistics page: notices, totals, what expires soon, and the form with every node.
use vstd::prelude::*;

use crate::calendar::{date_of_text, days_between, law_day_numbers_are_bounded, Date};
use crate::finance::billing::{
    amount_text, currencies, currency_prefix, currency_table, cycle_table, cycles, free, is_free,
    is_recognised, money, prefix_of, recognised,
};
use crate::finance::effect::FxStatusView;
use crate::finance::expiry::days_from;
use crate::finance::rates::{fmt_ts, stamp};
use crate::finance::record::{nodes_view, opt_date, read_date, Edition, FxStatus, NodeFin, NodeView};
use crate::json::{
    add_value, has, list_view, no_fields, no_values, nullable, pairs_view, text, text_or_null, width,
    Fields, Json, JsonView,
};
use crate::text::{
    ascending, digits, int_digits, join, joined, place, placed, push_digits, push_int, texts,
};

verus! {

/// The totals in words: both sums with two decimals, and the currencies without a rate.
#[derive(Debug)]
pub struct Sums {
    pub annual: String,
    pub remaining: String,
    pub missing: Vec<String>,
}

/// What a page is made from.
#[derive(Debug)]
pub struct PageData {
    /// The currency of the totals.
    pub target: String,
    /// The number of days within which an expiry is listed.
    pub window: i64,
    pub nodes: Vec<(i64, NodeFin)>,
    /// Whether the records could not be read.
    pub unreadable: bool,
    /// The base of the rates in the cache, and when they were fetched.
    pub rates: Option<(String, i64)>,
    pub failure: Option<FxStatus>,
    /// The totals, where there are rates.
    pub sums: Option<Sums>,
    pub day: Date,
}

// ---------------------------------------------------------------------------
// Building blocks
// ---------------------------------------------------------------------------

/// Appends the values of a list.
fn extend(list: &mut Vec<Json>, more: Vec<Json>)
    ensures
        list_view(final(list)@) == list_view(old(list)@) + list_view(more@),
{
    let mut more = more;
    let ghost first = list@;
    let ghost second = more@;
    list.append(&mut more);
    proof {
        lemma_list_view_concat(first, second);
        assert(list@ == first + second);
    }
}

proof fn lemma_list_view_concat(a: Seq<Json>, b: Seq<Json>)
    ensures
        list_view(a + b) == list_view(a) + list_view(b),
    decreases b.len(),
{
    if b.len() == 0 {
        assert(a + b == a);
        assert(list_view(a) + list_view(b) == list_view(a));
    } else {
        lemma_list_view_concat(a, b.drop_last());
        assert((a + b).drop_last() == a + b.drop_last());
        assert(list_view(a) + list_view(b) == (list_view(a) + list_view(b.drop_last())).push(
            b.last()@,
        ));
    }
}

/// A notice.
pub open spec fn notice(words: Seq<char>) -> JsonView {
    JsonView::Object(
        no_fields().push(("type"@, JsonView::Text("notice"@))).push(("text"@, JsonView::Text(words))),
    )
}

/// A notice that warns.
pub open spec fn warning(words: Seq<char>) -> JsonView {
    JsonView::Object(
        no_fields().push(("type"@, JsonView::Text("notice"@))).push(
            ("kind"@, JsonView::Text("warning"@)),
        ).push(("text"@, JsonView::Text(words))),
    )
}

fn notice_block(words: &str) -> (r: Json)
    ensures
        r@ == notice(words@),
{
    Fields::new().with("type", text("notice")).with("text", text(words)).done()
}

fn warning_block(words: &str) -> (r: Json)
    ensures
        r@ == warning(words@),
{
    Fields::new().with("type", text("notice")).with("kind", text("warning")).with(
        "text",
        text(words),
    ).done()
}

/// A choice that is shown under a label.
pub open spec fn choice(value: Seq<char>, label: Seq<char>) -> JsonView {
    JsonView::Object(
        no_fields().push(("value"@, JsonView::Text(value))).push(("label"@, JsonView::Text(label))),
    )
}

/// Choices under their labels.
pub open spec fn choices(table: Seq<(Seq<char>, Seq<char>)>) -> JsonView {
    JsonView::List(table.map_values(|p: (Seq<char>, Seq<char>)| choice(p.0, p.1)))
}

/// Choices as they are.
pub open spec fn plain_choices(table: Seq<(Seq<char>, Seq<char>)>) -> JsonView {
    JsonView::List(table.map_values(|p: (Seq<char>, Seq<char>)| JsonView::Text(p.0)))
}

/// Currencies under their symbols and codes.
pub open spec fn labelled(table: Seq<(Seq<char>, Seq<char>)>) -> Seq<(Seq<char>, Seq<char>)> {
    table.map_values(|p: (Seq<char>, Seq<char>)| (p.0, p.1 + " "@ + p.0))
}

fn labelled_choices(table: &Vec<(String, String)>) -> (r: Json)
    ensures
        r@ == choices(pairs_view(table@)),
{
    let ghost all = pairs_view(table@);
    let ghost wanted = all.map_values(|p: (Seq<char>, Seq<char>)| choice(p.0, p.1));
    let mut list: Vec<Json> = Vec::new();
    let mut i: usize = 0;
    assert(list_view(list@) == wanted.take(0));
    while i < table.len()
        invariant
            0 <= i <= table@.len(),
            all == pairs_view(table@),
            wanted == all.map_values(|p: (Seq<char>, Seq<char>)| choice(p.0, p.1)),
            list_view(list@) == wanted.take(i as int),
        decreases table@.len() - i,
    {
        let item = Fields::new().with("value", text(table[i].0.as_str())).with(
            "label",
            text(table[i].1.as_str()),
        ).done();
        add_value(&mut list, item);
        assert(wanted.take(i + 1) == wanted.take(i as int).push(wanted[i as int]));
        i += 1;
    }
    assert(wanted.take(i as int) == wanted);
    Json::List(list)
}

fn unlabelled_choices(table: &Vec<(String, String)>) -> (r: Json)
    ensures
        r@ == plain_choices(pairs_view(table@)),
{
    let ghost all = pairs_view(table@);
    let ghost wanted = all.map_values(|p: (Seq<char>, Seq<char>)| JsonView::Text(p.0));
    let mut list: Vec<Json> = Vec::new();
    let mut i: usize = 0;
    assert(list_view(list@) == wanted.take(0));
    while i < table.len()
        invariant
            0 <= i <= table@.len(),
            all == pairs_view(table@),
            wanted == all.map_values(|p: (Seq<char>, Seq<char>)| JsonView::Text(p.0)),
            list_view(list@) == wanted.take(i as int),
        decreases table@.len() - i,
    {
        add_value(&mut list, text(table[i].0.as_str()));
        assert(wanted.take(i + 1) == wanted.take(i as int).push(wanted[i as int]));
        i += 1;
    }
    assert(wanted.take(i as int) == wanted);
    Json::List(list)
}

/// The currencies to choose from. The reconciling edition shows them with their symbols.
pub open spec fn currency_choices(edition: Edition) -> JsonView {
    match edition {
        Edition::Importing => plain_choices(currency_table()),
        Edition::Reconciling => choices(labelled(currency_table())),
    }
}

/// The currencies to choose from.
pub fn currency_options(edition: Edition) -> (r: Json)
    ensures
        r@ == currency_choices(edition),
{
    let table = currencies();
    match edition {
        Edition::Importing => unlabelled_choices(&table),
        Edition::Reconciling => {
            let ghost wanted = labelled(currency_table());
            let mut out: Vec<(String, String)> = Vec::new();
            let mut i: usize = 0;
            assert(pairs_view(out@) == wanted.take(0));
            while i < table.len()
                invariant
                    0 <= i <= table@.len(),
                    wanted == labelled(pairs_view(table@)),
                    pairs_view(out@) == wanted.take(i as int),
                decreases table@.len() - i,
            {
                let ghost before = pairs_view(out@);
                let mut label = table[i].1.clone();
                label.append(" ");
                label.append(table[i].0.as_str());
                out.push((table[i].0.clone(), label));
                assert(pairs_view(out@) == before.push((table@[i as int].0@, label@)));
                assert(wanted.take(i + 1) == wanted.take(i as int).push(wanted[i as int]));
                i += 1;
            }
            assert(wanted.take(i as int) == wanted);
            labelled_choices(&out)
        },
    }
}

/// The billing cycles to choose from. The reconciling edition shows them under their labels.
pub open spec fn cycle_choices(edition: Edition) -> JsonView {
    match edition {
        Edition::Importing => plain_choices(cycle_table(edition)),
        Edition::Reconciling => choices(cycle_table(edition)),
    }
}

/// The billing cycles to choose from.
pub fn cycle_options(edition: Edition) -> (r: Json)
    ensures
        r@ == cycle_choices(edition),
{
    let table = cycles(edition);
    match edition {
        Edition::Importing => unlabelled_choices(&table),
        Edition::Reconciling => labelled_choices(&table),
    }
}

// ---------------------------------------------------------------------------
// Notices
// ---------------------------------------------------------------------------

/// The notice that the records could not be read.
pub open spec fn unreadable_words() -> Seq<char> {
    "读不到插件存的节点记录（可能超出单次读取上限或数据库出错），本轮没有对账，下面的表与统计暂缺；记录本身没有被改动，下次能读到时照旧"@
}

/// The notices about the rates: which there are and since when, and why the last refresh failed.
pub open spec fn rate_notices(
    rates: Option<(Seq<char>, i64)>,
    failure: Option<FxStatusView>,
) -> Seq<JsonView> {
    match rates {
        Some((base, at)) => {
            let known = no_values().push(
                notice("汇率基准 "@ + base + "，更新时间 "@ + stamp(at as int)),
            );
            match failure {
                Some(f) => known.push(
                    warning(
                        "最近一次刷新 "@ + stamp(f.attempted_at as int) + " 失败："@ + f.reason,
                    ),
                ),
                None => known,
            }
        },
        None => no_values().push(
            warning(
                match failure {
                    Some(f) => "汇率不可用——尚未成功拉取过汇率，统计暂缺；最近一次尝试 "@ + stamp(
                        f.attempted_at as int,
                    ) + " 失败："@ + f.reason,
                    None => "汇率不可用——尚未成功拉取过汇率，统计暂缺"@,
                },
            ),
        ),
    }
}

/// The base and time of rates in the abstract.
pub open spec fn rates_seen(rates: Option<(String, i64)>) -> Option<(Seq<char>, i64)> {
    match rates {
        Some((base, at)) => Some((base@, at)),
        None => None,
    }
}

/// A failure in the abstract.
pub open spec fn failure_seen(failure: Option<FxStatus>) -> Option<FxStatusView> {
    match failure {
        Some(f) => Some(f@),
        None => None,
    }
}

fn rate_blocks(rates: &Option<(String, i64)>, failure: &Option<FxStatus>) -> (r: Vec<Json>)
    ensures
        list_view(r@) == rate_notices(rates_seen(*rates), failure_seen(*failure)),
{
    let mut list: Vec<Json> = Vec::new();
    assert(list_view(list@) == no_values());
    match rates {
        Some(known) => {
            let mut words = "汇率基准 ".to_owned();
            words.append(known.0.as_str());
            words.append("，更新时间 ");
            words.append(fmt_ts(known.1).as_str());
            add_value(&mut list, notice_block(words.as_str()));
            if let Some(f) = failure {
                let mut words = "最近一次刷新 ".to_owned();
                words.append(fmt_ts(f.attempted_at).as_str());
                words.append(" 失败：");
                words.append(f.reason.as_str());
                add_value(&mut list, warning_block(words.as_str()));
            }
        },
        None => {
            let words = match failure {
                Some(f) => {
                    let mut words = "汇率不可用——尚未成功拉取过汇率，统计暂缺；最近一次尝试 ".to_owned();
                    words.append(fmt_ts(f.attempted_at).as_str());
                    words.append(" 失败：");
                    words.append(f.reason.as_str());
                    words
                },
                None => "汇率不可用——尚未成功拉取过汇率，统计暂缺".to_owned(),
            };
            add_value(&mut list, warning_block(words.as_str()));
        },
    }
    list
}

/// The notice about currencies without a rate, where there are some.
pub open spec fn missing_notices(missing: Seq<Seq<char>>) -> Seq<JsonView> {
    if missing.len() == 0 {
        no_values()
    } else {
        no_values().push(
            warning(
                "部分节点币种未在 Frankfurter 汇率表中（"@ + joined(missing, "、"@) + "），未计入汇总"@,
            ),
        )
    }
}

fn missing_blocks(missing: &Vec<String>) -> (r: Vec<Json>)
    ensures
        list_view(r@) == missing_notices(texts(missing@)),
{
    let mut list: Vec<Json> = Vec::new();
    assert(list_view(list@) == no_values());
    assert(texts(missing@).len() == missing@.len());
    if missing.len() > 0 {
        let mut words = "部分节点币种未在 Frankfurter 汇率表中（".to_owned();
        words.append(join(missing, "、").as_str());
        words.append("），未计入汇总");
        add_value(&mut list, warning_block(words.as_str()));
    }
    list
}

/// The cycles of nodes that the statistics do not recognise, in order, each once.
pub open spec fn strange_cycles(nodes: Seq<(i64, NodeView)>) -> Seq<Seq<char>>
    decreases nodes.len(),
{
    if nodes.len() == 0 {
        Seq::empty()
    } else {
        let before = strange_cycles(nodes.drop_last());
        let cycle = nodes.last().1.billing_cycle;
        if recognised(cycle) {
            before
        } else {
            placed(before, cycle)
        }
    }
}

/// The cycles of nodes that the statistics do not recognise, in order, each once.
pub fn unrecognised_cycles(nodes: &Vec<(i64, NodeFin)>) -> (r: Vec<String>)
    ensures
        texts(r@) == strange_cycles(nodes_view(nodes@)),
{
    let ghost all = nodes_view(nodes@);
    let mut out: Vec<String> = Vec::new();
    let mut i: usize = 0;
    assert(texts(out@) == strange_cycles(all.take(0)));
    while i < nodes.len()
        invariant
            0 <= i <= nodes@.len(),
            all == nodes_view(nodes@),
            texts(out@) == strange_cycles(all.take(i as int)),
        decreases nodes@.len() - i,
    {
        assert(all.take(i + 1).drop_last() == all.take(i as int));
        assert(all.take(i + 1).last() == (nodes@[i as int].0, nodes@[i as int].1@));
        let cycle = nodes[i].1.billing_cycle.as_str();
        if !is_recognised(cycle) {
            place(&mut out, cycle);
        }
        i += 1;
    }
    assert(all.take(i as int) == all);
    out
}

/// The cycles that are named are in order, each once, and are those of nodes that the statistics
/// do not recognise.
pub proof fn law_strange_cycles_are_named(nodes: Seq<(i64, NodeView)>, cycle: Seq<char>)
    ensures
        ascending(strange_cycles(nodes)),
        strange_cycles(nodes).contains(cycle) <==> !recognised(cycle) && exists|i: int|
            0 <= i < nodes.len() && (#[trigger] nodes[i]).1.billing_cycle == cycle,
    decreases nodes.len(),
{
    if nodes.len() > 0 {
        let init = nodes.drop_last();
        law_strange_cycles_are_named(init, cycle);
        crate::text::law_placed_keeps_order(strange_cycles(init), nodes.last().1.billing_cycle);
        if exists|i: int| 0 <= i < nodes.len() && (#[trigger] nodes[i]).1.billing_cycle == cycle {
            let i = choose|i: int|
                0 <= i < nodes.len() && (#[trigger] nodes[i]).1.billing_cycle == cycle;
            if i < nodes.len() - 1 {
                assert(init[i].1.billing_cycle == cycle);
            }
        }
        if exists|i: int| 0 <= i < init.len() && (#[trigger] init[i]).1.billing_cycle == cycle {
            let i = choose|i: int|
                0 <= i < init.len() && (#[trigger] init[i]).1.billing_cycle == cycle;
            assert(nodes[i].1.billing_cycle == cycle);
        }
        assert(nodes[nodes.len() - 1] == nodes.last());
    }
}

/// The notice about cycles that are not recognised, where the edition gives one.
pub open spec fn cycle_notices(edition: Edition, nodes: Seq<(i64, NodeView)>) -> Seq<JsonView> {
    let strange = strange_cycles(nodes);
    if edition == Edition::Importing || strange.len() == 0 {
        no_values()
    } else {
        no_values().push(
            warning(
                "部分节点的计费周期无法识别（"@ + joined(strange, "、"@) + "），未计入年化成本"@,
            ),
        )
    }
}

fn cycle_blocks(edition: Edition, nodes: &Vec<(i64, NodeFin)>) -> (r: Vec<Json>)
    ensures
        list_view(r@) == cycle_notices(edition, nodes_view(nodes@)),
{
    let mut list: Vec<Json> = Vec::new();
    assert(list_view(list@) == no_values());
    match edition {
        Edition::Importing => {},
        Edition::Reconciling => {
            let strange = unrecognised_cycles(nodes);
            assert(texts(strange@).len() == strange@.len());
            if strange.len() > 0 {
                let mut words = "部分节点的计费周期无法识别（".to_owned();
                words.append(join(&strange, "、").as_str());
                words.append("），未计入年化成本");
                add_value(&mut list, warning_block(words.as_str()));
            }
        },
    }
    list
}

// ---------------------------------------------------------------------------
// Totals
// ---------------------------------------------------------------------------

/// The totals in the abstract.
pub ghost struct SumsView {
    pub annual: Seq<char>,
    pub remaining: Seq<char>,
    pub missing: Seq<Seq<char>>,
}

impl View for Sums {
    type V = SumsView;

    open spec fn view(&self) -> SumsView {
        SumsView { annual: self.annual@, remaining: self.remaining@, missing: texts(self.missing@) }
    }
}

/// The totals in the abstract, where there are some.
pub open spec fn sums_seen(sums: Option<Sums>) -> Option<SumsView> {
    match sums {
        Some(s) => Some(s@),
        None => None,
    }
}

/// A figure under its label.
pub open spec fn figure(label: Seq<char>, value: Seq<char>) -> JsonView {
    JsonView::Object(
        no_fields().push(("label"@, JsonView::Text(label))).push(("value"@, JsonView::Text(value))),
    )
}

fn figure_of(label: &str, value: &str) -> (r: Json)
    ensures
        r@ == figure(label@, value@),
{
    Fields::new().with("label", text(label)).with("value", text(value)).done()
}

/// Figures side by side.
pub open spec fn stat(items: Seq<JsonView>) -> JsonView {
    JsonView::Object(
        no_fields().push(("type"@, JsonView::Text("stat"@))).push(("items"@, JsonView::List(items))),
    )
}

fn stat_block(items: Vec<Json>) -> (r: Json)
    ensures
        r@ == stat(list_view(items@)),
{
    Fields::new().with("type", text("stat")).with("items", Json::List(items)).done()
}

/// The choice of the currency in the importing edition.
pub open spec fn target_select(target: Seq<char>) -> JsonView {
    JsonView::Object(
        no_fields().push(("type"@, JsonView::Text("select"@))).push(
            ("name"@, JsonView::Text("target_currency"@)),
        ).push(("label"@, JsonView::Text("展示币种"@))).push(("value"@, JsonView::Text(target))).push(
            ("options"@, currency_choices(Edition::Importing)),
        ).push(("action"@, JsonView::Text("set_currency"@))),
    )
}

/// The choice of the currency in the reconciling edition: the first of the figures.
pub open spec fn target_figure(target: Seq<char>) -> JsonView {
    JsonView::Object(
        no_fields().push(("label"@, JsonView::Text("展示币种"@))).push(
            (
                "select"@,
                JsonView::Object(
                    no_fields().push(("value"@, JsonView::Text(target))).push(
                        ("options"@, currency_choices(Edition::Reconciling)),
                    ).push(("action"@, JsonView::Text("set_currency"@))),
                ),
            ),
        ),
    )
}

/// A sum with its currency, or a dash where there are no rates.
pub open spec fn sum_words(target: Seq<char>, sum: Option<Seq<char>>) -> Seq<char> {
    match sum {
        Some(amount) => amount_text(target, amount),
        None => "—"@,
    }
}

/// The blocks with the totals and the choice of their currency. The importing edition has no
/// totals without rates; the reconciling edition shows dashes.
pub open spec fn total_blocks(edition: Edition, target: Seq<char>, sums: Option<SumsView>) -> Seq<
    JsonView,
> {
    match edition {
        Edition::Importing => match sums {
            Some(s) => (no_values().push(
                stat(
                    no_values().push(
                        figure("年化续费总成本（"@ + target + "）"@, s.annual),
                    ).push(figure("剩余总价值（"@ + target + "）"@, s.remaining)),
                ),
            ) + missing_notices(s.missing)).push(target_select(target)),
            None => no_values().push(target_select(target)),
        },
        Edition::Reconciling => {
            let annual = match sums {
                Some(s) => Some(s.annual),
                None => None,
            };
            let remaining = match sums {
                Some(s) => Some(s.remaining),
                None => None,
            };
            let missing = match sums {
                Some(s) => missing_notices(s.missing),
                None => no_values(),
            };
            missing.push(
                stat(
                    no_values().push(target_figure(target)).push(
                        figure("年化续费总成本"@, sum_words(target, annual)),
                    ).push(figure("剩余总价值"@, sum_words(target, remaining))),
                ),
            )
        },
    }
}

fn with_target(label: &str, target: &str) -> (r: String)
    ensures
        r@ == label@ + target@ + "）"@,
{
    let mut out = label.to_owned();
    out.append(target);
    out.append("）");
    out
}

fn total_parts(edition: Edition, target: &str, sums: &Option<Sums>) -> (r: Vec<Json>)
    ensures
        list_view(r@) == total_blocks(edition, target@, sums_seen(*sums)),
{
    let mut list: Vec<Json> = Vec::new();
    assert(list_view(list@) == no_values());
    let mut items: Vec<Json> = Vec::new();
    assert(list_view(items@) == no_values());
    match edition {
        Edition::Importing => {
            if let Some(s) = sums {
                let annual = with_target("年化续费总成本（", target);
                add_value(&mut items, figure_of(annual.as_str(), s.annual.as_str()));
                let remaining = with_target("剩余总价值（", target);
                add_value(&mut items, figure_of(remaining.as_str(), s.remaining.as_str()));
                add_value(&mut list, stat_block(items));
                extend(&mut list, missing_blocks(&s.missing));
            }
            let select = Fields::new().with("type", text("select")).with(
                "name",
                text("target_currency"),
            ).with("label", text("展示币种")).with("value", text(target)).with(
                "options",
                currency_options(edition),
            ).with("action", text("set_currency")).done();
            add_value(&mut list, select);
        },
        Edition::Reconciling => {
            let inner = Fields::new().with("value", text(target)).with(
                "options",
                currency_options(edition),
            ).with("action", text("set_currency")).done();
            let first = Fields::new().with("label", text("展示币种")).with("select", inner).done();
            add_value(&mut items, first);
            match sums {
                Some(s) => {
                    extend(&mut list, missing_blocks(&s.missing));
                    assert(list_view(list@) == missing_notices(texts(s.missing@)));
                    let annual = money(target, s.annual.as_str());
                    add_value(&mut items, figure_of("年化续费总成本", annual.as_str()));
                    let remaining = money(target, s.remaining.as_str());
                    add_value(&mut items, figure_of("剩余总价值", remaining.as_str()));
                },
                None => {
                    add_value(&mut items, figure_of("年化续费总成本", "—"));
                    add_value(&mut items, figure_of("剩余总价值", "—"));
                },
            }
            add_value(&mut list, stat_block(items));
        },
    }
    list
}

// ---------------------------------------------------------------------------
// What expires soon
// ---------------------------------------------------------------------------

/// A row of the list of what expires soon, with its days.
pub struct Due {
    pub days: i64,
    pub row: Json,
}

/// Rows with their days in the abstract.
pub open spec fn dues_view(list: Seq<Due>) -> Seq<(i64, JsonView)> {
    list.map_values(|d: Due| (d.days, d.row@))
}

/// The row of a node that expires soon.
pub open spec fn due_row(edition: Edition, node: NodeView, days: i64) -> JsonView {
    JsonView::List(
        no_values().push(JsonView::Text(node.name)).push(nullable(node.expires_at)).push(
            JsonView::Int(days as int),
        ).push(
            JsonView::Text(
                if free(edition, node) {
                    "免费"@
                } else {
                    ""@
                },
            ),
        ),
    )
}

/// The rows of the nodes that expire soon, in the order of the nodes.
pub open spec fn due_rows(
    edition: Edition,
    nodes: Seq<(i64, NodeView)>,
    day: Date,
    window: i64,
) -> Seq<
    (i64, JsonView),
>
    decreases nodes.len(),
{
    if nodes.len() == 0 {
        Seq::empty()
    } else {
        let before = due_rows(edition, nodes.drop_last(), day, window);
        let node = nodes.last().1;
        match opt_date(node.expires_at) {
            Some(date) => if 0 <= days_from(day, date) <= window {
                before.push((days_from(day, date), due_row(edition, node, days_from(day, date))))
            } else {
                before
            },
            None => before,
        }
    }
}

/// A row added to rows in the order of their days, behind those with as many days.
pub open spec fn slotted(list: Seq<(i64, JsonView)>, item: (i64, JsonView)) -> Seq<(i64, JsonView)>
    decreases list.len(),
{
    if list.len() == 0 || list.last().0 <= item.0 {
        list.push(item)
    } else {
        slotted(list.drop_last(), item).push(list.last())
    }
}

/// Rows in the order of their days; those with as many days keep their order.
pub open spec fn by_days(list: Seq<(i64, JsonView)>) -> Seq<(i64, JsonView)>
    decreases list.len(),
{
    if list.len() == 0 {
        list
    } else {
        slotted(by_days(list.drop_last()), list.last())
    }
}

fn slot(list: &mut Vec<Due>, item: Due)
    ensures
        dues_view(final(list)@) == slotted(dues_view(old(list)@), (item.days, item.row@)),
{
    let ghost before = dues_view(list@);
    let ghost new = (item.days, item.row@);
    let mut i: usize = list.len();
    assert(before.take(i as int) == before);
    assert(slotted(before.take(i as int), new) + before.skip(i as int) == slotted(before, new));
    while i > 0 && list[i - 1].days > item.days
        invariant
            before == dues_view(list@),
            list@ == old(list)@,
            i <= list@.len(),
            new == (item.days, item.row@),
            slotted(before.take(i as int), new) + before.skip(i as int) == slotted(before, new),
        decreases i,
    {
        let ghost head = before.take(i as int);
        assert(head.last() == before[i - 1]);
        assert(head.drop_last() == before.take(i - 1));
        assert(slotted(head, new) + before.skip(i as int) == slotted(before.take(i - 1), new)
            + before.skip(i - 1));
        i -= 1;
    }
    let ghost head = before.take(i as int);
    list.insert(i, item);
    proof {
        if i > 0 {
            assert(head.last() == before[i - 1]);
        }
        assert(slotted(head, new) == head.push(new));
        assert(dues_view(list@) == head.push(new) + before.skip(i as int));
    }
}

fn due_list(edition: Edition, nodes: &Vec<(i64, NodeFin)>, day: &Date, window: i64) -> (r: Vec<Due>)
    requires
        day.valid(),
    ensures
        dues_view(r@) == by_days(due_rows(edition, nodes_view(nodes@), *day, window)),
{
    let ghost all = nodes_view(nodes@);
    let mut out: Vec<Due> = Vec::new();
    let mut i: usize = 0;
    assert(dues_view(out@) == by_days(due_rows(edition, all.take(0), *day, window)));
    while i < nodes.len()
        invariant
            0 <= i <= nodes@.len(),
            day.valid(),
            all == nodes_view(nodes@),
            dues_view(out@) == by_days(due_rows(edition, all.take(i as int), *day, window)),
        decreases nodes@.len() - i,
    {
        let ghost done = due_rows(edition, all.take(i as int), *day, window);
        assert(all.take(i + 1).drop_last() == all.take(i as int));
        assert(all.take(i + 1).last() == (nodes@[i as int].0, nodes@[i as int].1@));
        let node = &nodes[i].1;
        if let Some(date) = read_date(&node.expires_at) {
            let days: i64 = days_between(&date, day);
            if days >= 0 && days <= window {
                let mut row: Vec<Json> = Vec::new();
                assert(list_view(row@) == no_values());
                add_value(&mut row, text(node.name.as_str()));
                add_value(&mut row, text_or_null(&node.expires_at));
                add_value(&mut row, Json::Int(days));
                if is_free(edition, node) {
                    add_value(&mut row, text("免费"));
                } else {
                    add_value(&mut row, text(""));
                }
                let item = Due { days, row: Json::List(row) };
                assert(item.row@ == due_row(edition, node@, days));
                slot(&mut out, item);
                assert(done.push((days, item.row@)).drop_last() == done);
            }
        }
        i += 1;
    }
    assert(all.take(i as int) == all);
    out
}

/// The rows are listed in the order of their days.
pub proof fn law_due_rows_are_in_order(list: Seq<(i64, JsonView)>)
    ensures
        forall|i: int, j: int|
            0 <= i < j < by_days(list).len() ==> (#[trigger] by_days(list)[i]).0 <= (
            #[trigger] by_days(list)[j]).0,
    decreases list.len(),
{
    if list.len() > 0 {
        law_due_rows_are_in_order(list.drop_last());
        lemma_slotted_order(by_days(list.drop_last()), list.last());
    }
}

proof fn lemma_slotted_order(list: Seq<(i64, JsonView)>, item: (i64, JsonView))
    requires
        forall|i: int, j: int|
            0 <= i < j < list.len() ==> (#[trigger] list[i]).0 <= (#[trigger] list[j]).0,
    ensures
        forall|i: int, j: int|
            0 <= i < j < slotted(list, item).len() ==> (#[trigger] slotted(list, item)[i]).0 <= (
            #[trigger] slotted(list, item)[j]).0,
        forall|k: int, top: i64|
            #![trigger slotted(list, item)[k], within(list, item, top)]
            0 <= k < slotted(list, item).len() && within(list, item, top) ==> slotted(list, item)[k].0
                <= top,
    decreases list.len(),
{
    let r = slotted(list, item);
    if list.len() > 0 && list.last().0 > item.0 {
        let head = list.drop_last();
        lemma_slotted_order(head, item);
        let inner = slotted(head, item);
        assert(within(head, item, list.last().0));
        assert forall|i: int, j: int| 0 <= i < j < r.len() implies (#[trigger] r[i]).0 <= (
        #[trigger] r[j]).0 by {
            if j < r.len() - 1 {
                assert(inner[i].0 <= inner[j].0);
            } else {
                assert(inner[i].0 <= list.last().0);
            }
        }
        assert forall|k: int, top: i64|
            #![trigger r[k], within(list, item, top)]
            0 <= k < r.len() && within(list, item, top) implies r[k].0 <= top by {
            assert(list[list.len() - 1].0 <= top);
            if k < r.len() - 1 {
                assert(inner[k].0 <= list.last().0);
            }
        }
    }
}

/// Whether neither the rows nor a further one have more days than this.
pub open spec fn within(list: Seq<(i64, JsonView)>, item: (i64, JsonView), top: i64) -> bool {
    item.0 <= top && forall|k: int| 0 <= k < list.len() ==> (#[trigger] list[k]).0 <= top
}

/// The rows that are listed are those that were found, no more and no fewer.
pub proof fn law_due_rows_are_complete(list: Seq<(i64, JsonView)>)
    ensures
        by_days(list).to_multiset() == list.to_multiset(),
        by_days(list).len() == list.len(),
    decreases list.len(),
{
    broadcast use vstd::seq_lib::group_to_multiset_ensures;

    if list.len() > 0 {
        law_due_rows_are_complete(list.drop_last());
        lemma_slotted_items(by_days(list.drop_last()), list.last());
        assert(list.drop_last().push(list.last()) == list);
    }
}

proof fn lemma_slotted_items(list: Seq<(i64, JsonView)>, item: (i64, JsonView))
    ensures
        slotted(list, item).to_multiset() == list.to_multiset().insert(item),
        slotted(list, item).len() == list.len() + 1,
    decreases list.len(),
{
    broadcast use vstd::seq_lib::group_to_multiset_ensures;

    if list.len() > 0 && list.last().0 > item.0 {
        lemma_slotted_items(list.drop_last(), item);
        assert(list.drop_last().push(list.last()) == list);
        assert(list.drop_last().to_multiset().insert(item).insert(list.last())
            == list.drop_last().to_multiset().insert(list.last()).insert(item));
    }
}

/// The rows with a number of days, in their order.
pub open spec fn on_day(list: Seq<(i64, JsonView)>, days: i64) -> Seq<(i64, JsonView)>
    decreases list.len(),
{
    if list.len() == 0 {
        list
    } else if list.last().0 == days {
        on_day(list.drop_last(), days).push(list.last())
    } else {
        on_day(list.drop_last(), days)
    }
}

/// Rows with as many days stay in the order of the nodes.
pub proof fn law_due_rows_keep_their_order(list: Seq<(i64, JsonView)>, days: i64)
    ensures
        on_day(by_days(list), days) == on_day(list, days),
    decreases list.len(),
{
    if list.len() > 0 {
        law_due_rows_keep_their_order(list.drop_last(), days);
        lemma_slotted_on_day(by_days(list.drop_last()), list.last(), days);
    }
}

proof fn lemma_slotted_on_day(list: Seq<(i64, JsonView)>, item: (i64, JsonView), days: i64)
    ensures
        on_day(slotted(list, item), days) == if item.0 == days {
            on_day(list, days).push(item)
        } else {
            on_day(list, days)
        },
    decreases list.len(),
{
    let r = slotted(list, item);
    if list.len() == 0 || list.last().0 <= item.0 {
        assert(r.drop_last() == list);
    } else {
        lemma_slotted_on_day(list.drop_last(), item, days);
        assert(r.drop_last() == slotted(list.drop_last(), item));
        if item.0 == days {
            assert(list.last().0 != days);
        }
    }
}

/// The rows alone.
pub open spec fn rows_of(list: Seq<(i64, JsonView)>) -> Seq<JsonView> {
    list.map_values(|d: (i64, JsonView)| d.1)
}

/// The table of what expires soon.
pub open spec fn due_table(list: Seq<(i64, JsonView)>, window: i64) -> JsonView {
    JsonView::Object(
        no_fields().push(("type"@, JsonView::Text("table"@))).push(
            (
                "title"@,
                JsonView::Text(
                    int_digits(window as int) + " 天内到期（"@ + digits(list.len()) + "）"@,
                ),
            ),
        ).push(
            (
                "columns"@,
                JsonView::List(
                    no_values().push(JsonView::Text("节点"@)).push(JsonView::Text("到期日"@)).push(
                        JsonView::Text("剩余天数"@),
                    ).push(JsonView::Text("备注"@)),
                ),
            ),
        ).push(("rows"@, JsonView::List(rows_of(list)))),
    )
}

fn due_block(due: Vec<Due>, window: i64) -> (r: Json)
    ensures
        r@ == due_table(dues_view(due@), window),
{
    let ghost all = dues_view(due@);
    let mut title = String::new();
    push_int(&mut title, window);
    assert(title@ == int_digits(window as int));
    title.append(" 天内到期（");
    push_digits(&mut title, due.len() as u64);
    title.append("）");
    assert(all.len() == due@.len());
    let mut columns: Vec<Json> = Vec::new();
    assert(list_view(columns@) == no_values());
    add_value(&mut columns, text("节点"));
    add_value(&mut columns, text("到期日"));
    add_value(&mut columns, text("剩余天数"));
    add_value(&mut columns, text("备注"));
    let rows = due_values(due);
    Fields::new().with("type", text("table")).with("title", Json::Text(title)).with(
        "columns",
        Json::List(columns),
    ).with("rows", Json::List(rows)).done()
}

fn due_values(due: Vec<Due>) -> (r: Vec<Json>)
    ensures
        list_view(r@) == rows_of(dues_view(due@)),
{
    let ghost all = due@;
    let ghost wanted = rows_of(dues_view(all));
    let mut due = due;
    let mut rows: Vec<Json> = Vec::new();
    let ghost mut done: int = 0;
    assert(list_view(rows@) == wanted.take(0));
    while due.len() > 0
        invariant
            0 <= done <= all.len(),
            wanted == rows_of(dues_view(all)),
            due@ == all.skip(done),
            list_view(rows@) == wanted.take(done),
        decreases due@.len(),
    {
        assert(due@[0] == all[done]);
        let item = due.remove(0);
        add_value(&mut rows, item.row);
        assert(wanted[done] == item.row@);
        assert(wanted.take(done + 1) == wanted.take(done).push(wanted[done]));
        assert(due@ == all.skip(done + 1));
        proof {
            done = done + 1;
        }
    }
    assert(wanted.take(done) == wanted);
    rows
}

// ---------------------------------------------------------------------------
// The form
// ---------------------------------------------------------------------------

/// The row of a node in the form.
pub open spec fn form_row(edition: Edition, id: i64, node: NodeView) -> JsonView {
    let start = no_fields().push(("id"@, JsonView::Int(id as int))).push(
        ("name"@, JsonView::Text(node.name)),
    ).push(("price"@, JsonView::Double(node.price)));
    let priced = match edition {
        Edition::Importing => start,
        Edition::Reconciling => start.push(
            ("price_symbol"@, JsonView::Text(prefix_of(node.currency))),
        ),
    };
    JsonView::Object(
        priced.push(("currency"@, JsonView::Text(node.currency))).push(
            ("billing_cycle"@, JsonView::Text(node.billing_cycle)),
        ).push(("expires_at"@, nullable(node.expires_at))).push(
            ("free"@, JsonView::Bool(free(edition, node))),
        ),
    )
}

/// The rows of the form, in the order of the nodes.
pub open spec fn form_rows(edition: Edition, nodes: Seq<(i64, NodeView)>) -> Seq<JsonView> {
    nodes.map_values(|n: (i64, NodeView)| form_row(edition, n.0, n.1))
}

fn form_values(edition: Edition, nodes: &Vec<(i64, NodeFin)>) -> (r: Vec<Json>)
    ensures
        list_view(r@) == form_rows(edition, nodes_view(nodes@)),
{
    let ghost wanted = form_rows(edition, nodes_view(nodes@));
    let mut rows: Vec<Json> = Vec::new();
    let mut i: usize = 0;
    assert(list_view(rows@) == wanted.take(0));
    while i < nodes.len()
        invariant
            0 <= i <= nodes@.len(),
            wanted == form_rows(edition, nodes_view(nodes@)),
            list_view(rows@) == wanted.take(i as int),
        decreases nodes@.len() - i,
    {
        let node = &nodes[i].1;
        let start = Fields::new().with("id", Json::Int(nodes[i].0)).with(
            "name",
            text(node.name.as_str()),
        ).with("price", Json::Double(node.price));
        let priced = match edition {
            Edition::Importing => start,
            Edition::Reconciling => start.with(
                "price_symbol",
                text(currency_prefix(node.currency.as_str())),
            ),
        };
        let row = priced.with("currency", text(node.currency.as_str())).with(
            "billing_cycle",
            text(node.billing_cycle.as_str()),
        ).with("expires_at", text_or_null(&node.expires_at)).with(
            "free",
            Json::Bool(is_free(edition, node)),
        ).done();
        add_value(&mut rows, row);
        assert(wanted[i as int] == row@);
        assert(wanted.take(i + 1) == wanted.take(i as int).push(wanted[i as int]));
        i += 1;
    }
    assert(wanted.take(i as int) == wanted);
    rows
}

/// A field of the form.
pub open spec fn field(name: Seq<char>, label: Seq<char>, kind: Seq<char>) -> Seq<
    (Seq<char>, JsonView),
> {
    no_fields().push(("name"@, JsonView::Text(name))).push(("label"@, JsonView::Text(label))).push(
        ("type"@, JsonView::Text(kind)),
    )
}

fn field_of(name: &str, label: &str, kind: &str) -> (r: Fields)
    ensures
        r@ == field(name@, label@, kind@),
{
    Fields::new().with("name", text(name)).with("label", text(label)).with("type", text(kind))
}

/// The fields of the form, in the order of its columns.
pub open spec fn form_fields(edition: Edition) -> Seq<JsonView> {
    let price = match edition {
        Edition::Importing => field("price"@, "价格"@, "number"@),
        Edition::Reconciling => field("price"@, "价格"@, "money"@).push(
            ("prefix_key"@, JsonView::Text("price_symbol"@)),
        ),
    };
    no_values().push(JsonView::Object(field("name"@, "节点名"@, "text"@))).push(
        JsonView::Object(price),
    ).push(
        JsonView::Object(
            field("currency"@, "币种"@, "select"@).push(("options"@, currency_choices(edition))),
        ),
    ).push(
        JsonView::Object(
            field("billing_cycle"@, "计费周期"@, "select"@).push(("options"@, cycle_choices(edition))),
        ),
    ).push(JsonView::Object(field("expires_at"@, "到期日"@, "date"@)))
}

/// The form with every node.
pub open spec fn form(edition: Edition, nodes: Seq<(i64, NodeView)>) -> JsonView {
    JsonView::Object(
        no_fields().push(("type"@, JsonView::Text("form"@))).push(
            ("title"@, JsonView::Text("节点财务数据"@)),
        ).push(("action"@, JsonView::Text("save_node"@))).push(
            ("fields"@, JsonView::List(form_fields(edition))),
        ).push(("rows"@, JsonView::List(form_rows(edition, nodes)))),
    )
}

fn form_block(edition: Edition, nodes: &Vec<(i64, NodeFin)>) -> (r: Json)
    ensures
        r@ == form(edition, nodes_view(nodes@)),
{
    let mut fields: Vec<Json> = Vec::new();
    assert(list_view(fields@) == no_values());
    add_value(&mut fields, field_of("name", "节点名", "text").done());
    let price = match edition {
        Edition::Importing => field_of("price", "价格", "number"),
        Edition::Reconciling => field_of("price", "价格", "money").with(
            "prefix_key",
            text("price_symbol"),
        ),
    };
    add_value(&mut fields, price.done());
    add_value(
        &mut fields,
        field_of("currency", "币种", "select").with("options", currency_options(edition)).done(),
    );
    add_value(
        &mut fields,
        field_of("billing_cycle", "计费周期", "select").with(
            "options",
            cycle_options(edition),
        ).done(),
    );
    add_value(&mut fields, field_of("expires_at", "到期日", "date").done());
    Fields::new().with("type", text("form")).with("title", text("节点财务数据")).with(
        "action",
        text("save_node"),
    ).with("fields", Json::List(fields)).with(
        "rows",
        Json::List(form_values(edition, nodes)),
    ).done()
}

// ---------------------------------------------------------------------------
// The page
// ---------------------------------------------------------------------------

/// The notice that the records could not be read, where they could not.
pub open spec fn unreadable_notices(unreadable: bool) -> Seq<JsonView> {
    if unreadable {
        no_values().push(warning(unreadable_words()))
    } else {
        no_values()
    }
}

/// What a page is made from, in the abstract.
pub ghost struct PageView {
    pub target: Seq<char>,
    pub window: i64,
    pub nodes: Seq<(i64, NodeView)>,
    pub unreadable: bool,
    pub rates: Option<(Seq<char>, i64)>,
    pub failure: Option<FxStatusView>,
    pub sums: Option<SumsView>,
    pub day: Date,
}

impl View for PageData {
    type V = PageView;

    open spec fn view(&self) -> PageView {
        PageView {
            target: self.target@,
            window: self.window,
            nodes: nodes_view(self.nodes@),
            unreadable: self.unreadable,
            rates: rates_seen(self.rates),
            failure: failure_seen(self.failure),
            sums: sums_seen(self.sums),
            day: self.day,
        }
    }
}

/// The blocks of a page, from top to bottom.
pub open spec fn page_blocks(edition: Edition, data: PageView) -> Seq<JsonView> {
    (unreadable_notices(data.unreadable) + rate_notices(data.rates, data.failure) + total_blocks(
        edition,
        data.target,
        data.sums,
    ) + cycle_notices(edition, data.nodes)).push(
        due_table(by_days(due_rows(edition, data.nodes, data.day, data.window)), data.window),
    ).push(form(edition, data.nodes))
}

/// A page.
pub open spec fn page(edition: Edition, data: PageView) -> JsonView {
    JsonView::Object(
        no_fields().push(("title"@, JsonView::Text("财务统计"@))).push(
            ("blocks"@, JsonView::List(page_blocks(edition, data))),
        ),
    )
}

/// Builds the page.
pub fn build_page(edition: Edition, data: &PageData) -> (r: Json)
    requires
        data.day.valid(),
    ensures
        r@ == page(edition, data@),
{
    let mut blocks: Vec<Json> = Vec::new();
    assert(list_view(blocks@) == no_values());
    if data.unreadable {
        let words = "读不到插件存的节点记录（可能超出单次读取上限或数据库出错），本轮没有对账，下面的表与统计暂缺；记录本身没有被改动，下次能读到时照旧";
        add_value(&mut blocks, warning_block(words));
    }
    extend(&mut blocks, rate_blocks(&data.rates, &data.failure));
    extend(&mut blocks, total_parts(edition, data.target.as_str(), &data.sums));
    extend(&mut blocks, cycle_blocks(edition, &data.nodes));
    let due = due_list(edition, &data.nodes, &data.day, data.window);
    add_value(&mut blocks, due_block(due, data.window));
    add_value(&mut blocks, form_block(edition, &data.nodes));
    Fields::new().with("title", text("财务统计")).with("blocks", Json::List(blocks)).done()
}

/// While a failure is on record the page says why and when, whether there are older rates or not.
pub proof fn law_failures_are_always_shown(rates: Option<(Seq<char>, i64)>, failure: FxStatusView)
    ensures
        exists|start: Seq<char>| #[trigger]
            warning(start + stamp(failure.attempted_at as int) + " 失败："@ + failure.reason)
                == rate_notices(rates, Some(failure)).last(),
{
    let start = match rates {
        Some(_) => "最近一次刷新 "@,
        None => "汇率不可用——尚未成功拉取过汇率，统计暂缺；最近一次尝试 "@,
    };
    assert(warning(start + stamp(failure.attempted_at as int) + " 失败："@ + failure.reason)
        == rate_notices(rates, Some(failure)).last());
}

/// The currency of the totals can be chosen with rates and without.
pub proof fn law_the_currency_can_always_be_chosen(target: Seq<char>, sums: Option<SumsView>)
    ensures
        total_blocks(Edition::Importing, target, sums).last() == target_select(target),
        exists|rest: Seq<JsonView>| #[trigger]
            stat(no_values().push(target_figure(target)) + rest) == total_blocks(
                Edition::Reconciling,
                target,
                sums,
            ).last(),
{
    let annual = match sums {
        Some(s) => Some(s.annual),
        None => None,
    };
    let remaining = match sums {
        Some(s) => Some(s.remaining),
        None => None,
    };
    let first = no_values().push(target_figure(target));
    let rest = no_values().push(figure("年化续费总成本"@, sum_words(target, annual))).push(
        figure("剩余总价值"@, sum_words(target, remaining)),
    );
    assert(first + rest == first.push(
        figure("年化续费总成本"@, sum_words(target, annual)),
    ).push(figure("剩余总价值"@, sum_words(target, remaining))));
    assert(stat(first + rest) == total_blocks(Edition::Reconciling, target, sums).last());
}

/// The form lists every node, in the order of the records.
pub proof fn law_the_form_lists_every_node(edition: Edition, data: PageView)
    ensures
        page_blocks(edition, data).last() == form(edition, data.nodes),
        form_rows(edition, data.nodes).len() == data.nodes.len(),
        forall|i: int|
            0 <= i < data.nodes.len() ==> #[trigger] form_rows(edition, data.nodes)[i] == form_row(
                edition,
                data.nodes[i].0,
                data.nodes[i].1,
            ),
{
}

// ---------------------------------------------------------------------------
// What the table of what expires soon promises
// ---------------------------------------------------------------------------

/// Whether the expiry date of a node is today or at most some days ahead.
pub open spec fn expires_within(node: NodeView, day: Date, window: i64) -> bool {
    opt_date(node.expires_at) matches Some(date) && 0 <= date.number() - day.number() <= window
}

/// Whether every expiry date that can be read is a date of the calendar.
pub open spec fn dates_are_valid(nodes: Seq<(i64, NodeView)>) -> bool {
    forall|i: int|
        0 <= i < nodes.len() ==> (opt_date((#[trigger] nodes[i]).1.expires_at) matches Some(d)
            ==> d.valid())
}

/// Whether a row tells of a node: its name, the text of its expiry date, the days from today to
/// that date, and whether it is free.
pub open spec fn row_tells(edition: Edition, row: JsonView, node: NodeView, day: Date) -> bool {
    row matches JsonView::List(cells) && {
        &&& cells.len() == 4
        &&& cells[0] == JsonView::Text(node.name)
        &&& node.expires_at matches Some(told) && (cells[1] == JsonView::Text(told) && (
        date_of_text(told) matches Some(date) && cells[2] == JsonView::Int(
            date.number() - day.number(),
        )))
        &&& cells[3] == JsonView::Text(
            if free(edition, node) {
                "免费"@
            } else {
                ""@
            },
        )
    }
}

proof fn lemma_due_row(edition: Edition, node: NodeView, day: Date, window: i64)
    requires
        day.valid(),
        opt_date(node.expires_at) matches Some(d) && d.valid(),
    ensures
        opt_date(node.expires_at) matches Some(date) && days_from(day, date) == date.number()
            - day.number() && row_tells(
            edition,
            due_row(edition, node, days_from(day, date)),
            node,
            day,
        ),
{
    law_day_numbers_are_bounded(day);
    law_day_numbers_are_bounded(opt_date(node.expires_at)->0);
}

/// The rows are those of the nodes that expire within the window, one for each, in the order of
/// the nodes; each tells of its node, and its number of days is the one in its third cell.
pub proof fn law_due_rows_tell_of_their_nodes(
    edition: Edition,
    nodes: Seq<(i64, NodeView)>,
    day: Date,
    window: i64,
)
    requires
        day.valid(),
        dates_are_valid(nodes),
    ensures
        ({
            let due = nodes.filter(|n: (i64, NodeView)| expires_within(n.1, day, window));
            let rows = due_rows(edition, nodes, day, window);
            &&& rows.len() == due.len()
            &&& forall|k: int|
                0 <= k < due.len() ==> (row_tells(edition, (#[trigger] rows[k]).1, due[k].1, day)
                    && rows[k].1->List_0[2] == JsonView::Int(rows[k].0 as int) && 0 <= rows[k].0
                    <= window)
        }),
    decreases nodes.len(),
{
    reveal(Seq::filter);
    let within = |n: (i64, NodeView)| expires_within(n.1, day, window);
    if nodes.len() > 0 {
        let init = nodes.drop_last();
        assert forall|i: int| 0 <= i < init.len() implies (opt_date(
            (#[trigger] init[i]).1.expires_at,
        ) matches Some(d) ==> d.valid()) by {
            assert(nodes[i] == init[i]);
        }
        law_due_rows_tell_of_their_nodes(edition, init, day, window);
        let node = nodes.last().1;
        assert(nodes[nodes.len() - 1].1 == node);
        if opt_date(node.expires_at) is Some {
            lemma_due_row(edition, node, day, window);
        }
        let before = due_rows(edition, init, day, window);
        let rows = due_rows(edition, nodes, day, window);
        let due = nodes.filter(within);
        let was = init.filter(within);
        assert(within(nodes.last()) == expires_within(node, day, window));
        assert forall|k: int| 0 <= k < due.len() implies (row_tells(
            edition,
            (#[trigger] rows[k]).1,
            due[k].1,
            day,
        ) && rows[k].1->List_0[2] == JsonView::Int(rows[k].0 as int) && 0 <= rows[k].0
            <= window) by {
            if k < was.len() {
                assert(rows[k] == before[k]);
                assert(due[k] == was[k]);
            }
        }
    }
}

proof fn lemma_rows_have_nodes(
    edition: Edition,
    nodes: Seq<(i64, NodeView)>,
    day: Date,
    window: i64,
    item: (i64, JsonView),
)
    requires
        day.valid(),
        dates_are_valid(nodes),
        due_rows(edition, nodes, day, window).contains(item),
    ensures
        exists|i: int|
            0 <= i < nodes.len() && expires_within((#[trigger] nodes[i]).1, day, window)
                && row_tells(edition, item.1, nodes[i].1, day),
    decreases nodes.len(),
{
    if nodes.len() > 0 {
        let init = nodes.drop_last();
        let node = nodes.last().1;
        let before = due_rows(edition, init, day, window);
        let rows = due_rows(edition, nodes, day, window);
        let k = choose|k: int| 0 <= k < rows.len() && rows[k] == item;
        assert(nodes[nodes.len() - 1].1 == node);
        if k < before.len() {
            assert(before[k] == item);
            assert forall|i: int| 0 <= i < init.len() implies (opt_date(
                (#[trigger] init[i]).1.expires_at,
            ) matches Some(d) ==> d.valid()) by {
                assert(nodes[i] == init[i]);
            }
            lemma_rows_have_nodes(edition, init, day, window, item);
            let i = choose|i: int|
                0 <= i < init.len() && expires_within((#[trigger] init[i]).1, day, window)
                    && row_tells(edition, item.1, init[i].1, day);
            assert(nodes[i] == init[i]);
        } else {
            lemma_due_row(edition, node, day, window);
        }
    }
}

/// Each row of the table on a page belongs to a node whose expiry date is within the window: its
/// second cell is the text of that date, which reads as a date exactly as many days after today as
/// the third cell says.
pub proof fn law_table_rows_belong_to_nodes(edition: Edition, data: PageView, k: int)
    requires
        data.day.valid(),
        dates_are_valid(data.nodes),
        0 <= k < by_days(due_rows(edition, data.nodes, data.day, data.window)).len(),
    ensures
        ({
            let rows = by_days(due_rows(edition, data.nodes, data.day, data.window));
            let blocks = page_blocks(edition, data);
            let table = blocks[blocks.len() - 2];
            &&& exists|shown: Seq<JsonView>|
                {
                    &&& #[trigger] has(table, "rows"@, JsonView::List(shown))
                    &&& shown.len() == rows.len()
                    &&& shown[k] == rows[k].1
                }
            &&& exists|i: int|
                0 <= i < data.nodes.len() && expires_within(
                    (#[trigger] data.nodes[i]).1,
                    data.day,
                    data.window,
                ) && row_tells(edition, rows[k].1, data.nodes[i].1, data.day)
        }),
{
    broadcast use vstd::seq_lib::group_to_multiset_ensures;

    let found = due_rows(edition, data.nodes, data.day, data.window);
    let rows = by_days(found);
    law_due_rows_are_complete(found);
    assert(rows.contains(rows[k]));
    assert(rows.to_multiset().count(rows[k]) > 0);
    assert(found.contains(rows[k]));
    lemma_rows_have_nodes(edition, data.nodes, data.day, data.window, rows[k]);
    let blocks = page_blocks(edition, data);
    let table = blocks[blocks.len() - 2];
    assert(table == due_table(rows, data.window));
    let shown = rows_of(rows);
    if let JsonView::Object(fields) = table {
        assert(fields[3] == ("rows"@, JsonView::List(shown)));
    }
    assert(has(table, "rows"@, JsonView::List(shown)));
}

/// The table says how many days its window has and how many nodes expire within it, and names its
/// columns: node, expiry date, days left, remark.
pub proof fn law_the_table_is_titled(edition: Edition, data: PageView)
    requires
        data.day.valid(),
        dates_are_valid(data.nodes),
    ensures
        ({
            let blocks = page_blocks(edition, data);
            let table = blocks[blocks.len() - 2];
            let due = data.nodes.filter(
                |n: (i64, NodeView)| expires_within(n.1, data.day, data.window),
            );
            &&& width(table) == 4
            &&& has(table, "type"@, JsonView::Text("table"@))
            &&& has(
                table,
                "title"@,
                JsonView::Text(
                    int_digits(data.window as int) + " 天内到期（"@ + digits(due.len()) + "）"@,
                ),
            )
            &&& has(
                table,
                "columns"@,
                JsonView::List(
                    seq![
                        JsonView::Text("节点"@),
                        JsonView::Text("到期日"@),
                        JsonView::Text("剩余天数"@),
                        JsonView::Text("备注"@),
                    ],
                ),
            )
        }),
{
    let found = due_rows(edition, data.nodes, data.day, data.window);
    let rows = by_days(found);
    law_due_rows_are_complete(found);
    law_due_rows_tell_of_their_nodes(edition, data.nodes, data.day, data.window);
    let blocks = page_blocks(edition, data);
    let table = blocks[blocks.len() - 2];
    assert(table == due_table(rows, data.window));
    let columns = seq![
        JsonView::Text("节点"@),
        JsonView::Text("到期日"@),
        JsonView::Text("剩余天数"@),
        JsonView::Text("备注"@),
    ];
    assert(no_values().push(JsonView::Text("节点"@)).push(JsonView::Text("到期日"@)).push(
        JsonView::Text("剩余天数"@),
    ).push(JsonView::Text("备注"@)) == columns);
    if let JsonView::Object(fields) = table {
        assert(fields[0] == ("type"@, JsonView::Text("table"@)));
        assert(fields[1].0 == "title"@);
        assert(fields.contains(fields[1]));
        assert(fields[2] == ("columns"@, JsonView::List(columns)));
    }
}

// ---------------------------------------------------------------------------
// What the form promises
// ---------------------------------------------------------------------------

/// A row of the form tells of its node, each field under its own name. The reconciling edition adds
/// what stands before the price.
pub proof fn law_form_rows_tell_of_their_nodes(edition: Edition, id: i64, node: NodeView)
    ensures
        ({
            let row = form_row(edition, id, node);
            &&& has(row, "id"@, JsonView::Int(id as int))
            &&& has(row, "name"@, JsonView::Text(node.name))
            &&& has(row, "price"@, JsonView::Double(node.price))
            &&& has(row, "currency"@, JsonView::Text(node.currency))
            &&& has(row, "billing_cycle"@, JsonView::Text(node.billing_cycle))
            &&& has(
                row,
                "expires_at"@,
                match node.expires_at {
                    Some(date) => JsonView::Text(date),
                    None => JsonView::Null,
                },
            )
            &&& has(row, "free"@, JsonView::Bool(free(edition, node)))
            &&& edition == Edition::Importing ==> width(row) == 7
            &&& edition == Edition::Reconciling ==> width(row) == 8 && has(
                row,
                "price_symbol"@,
                JsonView::Text(prefix_of(node.currency)),
            )
        }),
{
    if let JsonView::Object(fields) = form_row(edition, id, node) {
        assert(fields[0] == ("id"@, JsonView::Int(id as int)));
        assert(fields[1] == ("name"@, JsonView::Text(node.name)));
        assert(fields[2] == ("price"@, JsonView::Double(node.price)));
        let k: int = match edition {
            Edition::Importing => 3,
            Edition::Reconciling => 4,
        };
        assert(edition == Edition::Reconciling ==> fields[3] == (
            "price_symbol"@,
            JsonView::Text(prefix_of(node.currency)),
        ));
        assert(fields[k] == ("currency"@, JsonView::Text(node.currency)));
        assert(fields[k + 1] == ("billing_cycle"@, JsonView::Text(node.billing_cycle)));
        assert(fields[k + 2] == ("expires_at"@, nullable(node.expires_at)));
        assert(fields[k + 3] == ("free"@, JsonView::Bool(free(edition, node))));
    }
}

/// The form saves nodes, and shows a row for each under its fields: the name, the price, the
/// currency and the cycle to choose, and the expiry date. A field's name is the name of what it
/// edits in a row and in a request.
pub proof fn law_the_form_edits_nodes(edition: Edition, nodes: Seq<(i64, NodeView)>)
    ensures
        ({
            let block = form(edition, nodes);
            let fields = form_fields(edition);
            &&& has(block, "type"@, JsonView::Text("form"@))
            &&& has(block, "title"@, JsonView::Text("节点财务数据"@))
            &&& has(block, "action"@, JsonView::Text("save_node"@))
            &&& has(block, "fields"@, JsonView::List(fields))
            &&& has(
                block,
                "rows"@,
                JsonView::List(
                    Seq::new(nodes.len(), |i: int| form_row(edition, nodes[i].0, nodes[i].1)),
                ),
            )
            &&& width(block) == 5
            &&& fields.len() == 5
            &&& has(fields[0], "name"@, JsonView::Text("name"@)) && has(
                fields[0],
                "label"@,
                JsonView::Text("节点名"@),
            ) && has(fields[0], "type"@, JsonView::Text("text"@))
            &&& has(fields[1], "name"@, JsonView::Text("price"@)) && has(
                fields[1],
                "label"@,
                JsonView::Text("价格"@),
            )
            &&& edition == Edition::Importing ==> has(
                fields[1],
                "type"@,
                JsonView::Text("number"@),
            )
            &&& edition == Edition::Reconciling ==> has(
                fields[1],
                "type"@,
                JsonView::Text("money"@),
            ) && has(fields[1], "prefix_key"@, JsonView::Text("price_symbol"@))
            &&& has(fields[2], "name"@, JsonView::Text("currency"@)) && has(
                fields[2],
                "label"@,
                JsonView::Text("币种"@),
            ) && has(fields[2], "type"@, JsonView::Text("select"@)) && has(
                fields[2],
                "options"@,
                currency_choices(edition),
            )
            &&& has(fields[3], "name"@, JsonView::Text("billing_cycle"@)) && has(
                fields[3],
                "label"@,
                JsonView::Text("计费周期"@),
            ) && has(fields[3], "type"@, JsonView::Text("select"@)) && has(
                fields[3],
                "options"@,
                cycle_choices(edition),
            )
            &&& has(fields[4], "name"@, JsonView::Text("expires_at"@)) && has(
                fields[4],
                "label"@,
                JsonView::Text("到期日"@),
            ) && has(fields[4], "type"@, JsonView::Text("date"@))
        }),
{
    let fields = form_fields(edition);
    let rows = Seq::new(nodes.len(), |i: int| form_row(edition, nodes[i].0, nodes[i].1));
    assert(form_rows(edition, nodes) == rows);
    if let JsonView::Object(parts) = form(edition, nodes) {
        assert(parts[0] == ("type"@, JsonView::Text("form"@)));
        assert(parts[1] == ("title"@, JsonView::Text("节点财务数据"@)));
        assert(parts[2] == ("action"@, JsonView::Text("save_node"@)));
        assert(parts[3] == ("fields"@, JsonView::List(fields)));
        assert(parts[4] == ("rows"@, JsonView::List(rows)));
    }
    lemma_field("name"@, "节点名"@, "text"@, fields[0]);
    lemma_field(
        "price"@,
        "价格"@,
        match edition {
            Edition::Importing => "number"@,
            Edition::Reconciling => "money"@,
        },
        fields[1],
    );
    lemma_field("currency"@, "币种"@, "select"@, fields[2]);
    lemma_field("billing_cycle"@, "计费周期"@, "select"@, fields[3]);
    lemma_field("expires_at"@, "到期日"@, "date"@, fields[4]);
    if let JsonView::Object(parts) = fields[1] {
        assert(edition == Edition::Reconciling ==> parts[3] == (
            "prefix_key"@,
            JsonView::Text("price_symbol"@),
        ));
    }
    if let JsonView::Object(parts) = fields[2] {
        assert(parts[3] == ("options"@, currency_choices(edition)));
    }
    if let JsonView::Object(parts) = fields[3] {
        assert(parts[3] == ("options"@, cycle_choices(edition)));
    }
}

proof fn lemma_field(name: Seq<char>, label: Seq<char>, kind: Seq<char>, json: JsonView)
    requires
        json matches JsonView::Object(parts) && parts.len() >= 3 && parts[0] == (
            "name"@,
            JsonView::Text(name),
        ) && parts[1] == ("label"@, JsonView::Text(label)) && parts[2] == (
            "type"@,
            JsonView::Text(kind),
        ),
    ensures
        has(json, "name"@, JsonView::Text(name)),
        has(json, "label"@, JsonView::Text(label)),
        has(json, "type"@, JsonView::Text(kind)),
{
}

/// Every currency on offer can be chosen by its code, in the order of the offer: in the reconciling
/// edition under its symbol and code, in the importing one under the code alone.
pub proof fn law_currencies_can_be_chosen(i: int)
    requires
        0 <= i < currency_table().len(),
    ensures
        currency_choices(Edition::Importing) matches JsonView::List(list) && list.len()
            == currency_table().len() && list[i] == JsonView::Text(currency_table()[i].0),
        currency_choices(Edition::Reconciling) matches JsonView::List(list) && list.len()
            == currency_table().len() && width(list[i]) == 2 && has(
            list[i],
            "value"@,
            JsonView::Text(currency_table()[i].0),
        ) && has(
            list[i],
            "label"@,
            JsonView::Text(currency_table()[i].1 + " "@ + currency_table()[i].0),
        ),
{
    let (code, symbol) = currency_table()[i];
    lemma_choice(code, symbol + " "@ + code);
}

/// Every cycle on offer can be chosen by its name, in the order of the offer: in the reconciling
/// edition under its label.
pub proof fn law_cycles_can_be_chosen(edition: Edition, i: int)
    requires
        0 <= i < cycle_table(edition).len(),
    ensures
        cycle_choices(edition) matches JsonView::List(list) && list.len() == cycle_table(
            edition,
        ).len() && match edition {
            Edition::Importing => list[i] == JsonView::Text(cycle_table(edition)[i].0),
            Edition::Reconciling => width(list[i]) == 2 && has(
                list[i],
                "value"@,
                JsonView::Text(cycle_table(edition)[i].0),
            ) && has(list[i], "label"@, JsonView::Text(cycle_table(edition)[i].1)),
        },
{
    let (name, label) = cycle_table(edition)[i];
    lemma_choice(name, label);
}

proof fn lemma_choice(value: Seq<char>, label: Seq<char>)
    ensures
        width(choice(value, label)) == 2,
        has(choice(value, label), "value"@, JsonView::Text(value)),
        has(choice(value, label), "label"@, JsonView::Text(label)),
{
    if let JsonView::Object(parts) = choice(value, label) {
        assert(parts[0] == ("value"@, JsonView::Text(value)));
        assert(parts[1] == ("label"@, JsonView::Text(label)));
    }
}

// ---------------------------------------------------------------------------
// What the notices and the totals promise
// ---------------------------------------------------------------------------

/// Whether a block is a notice with some words, and a warning or not.
pub open spec fn says(block: JsonView, words: Seq<char>, warns: bool) -> bool {
    &&& has(block, "type"@, JsonView::Text("notice"@))
    &&& has(block, "text"@, JsonView::Text(words))
    &&& warns ==> width(block) == 3 && has(block, "kind"@, JsonView::Text("warning"@))
    &&& !warns ==> width(block) == 2
}

proof fn lemma_notices_say(words: Seq<char>)
    ensures
        says(notice(words), words, false),
        says(warning(words), words, true),
{
    if let JsonView::Object(parts) = notice(words) {
        assert(parts[0] == ("type"@, JsonView::Text("notice"@)));
        assert(parts[1] == ("text"@, JsonView::Text(words)));
    }
    if let JsonView::Object(parts) = warning(words) {
        assert(parts[0] == ("type"@, JsonView::Text("notice"@)));
        assert(parts[1] == ("kind"@, JsonView::Text("warning"@)));
        assert(parts[2] == ("text"@, JsonView::Text(words)));
    }
}

/// The page says what the rates are in and since when. A failure since then stands behind that as a
/// warning, with its time and its reason. Without rates there is one warning, which says so, and
/// why the last try failed, if there was one.
pub proof fn law_the_page_tells_of_the_rates(
    base: Seq<char>,
    at: i64,
    failure: Option<FxStatusView>,
)
    ensures
        ({
            let known = rate_notices(Some((base, at)), failure);
            let unknown = rate_notices(None, failure);
            &&& says(known[0], "汇率基准 "@ + base + "，更新时间 "@ + stamp(at as int), false)
            &&& unknown.len() == 1
            &&& match failure {
                Some(f) => {
                    &&& known.len() == 2
                    &&& says(
                        known[1],
                        "最近一次刷新 "@ + stamp(f.attempted_at as int) + " 失败："@ + f.reason,
                        true,
                    )
                    &&& says(
                        unknown[0],
                        "汇率不可用——尚未成功拉取过汇率，统计暂缺；最近一次尝试 "@ + stamp(
                            f.attempted_at as int,
                        ) + " 失败："@ + f.reason,
                        true,
                    )
                },
                None => {
                    &&& known.len() == 1
                    &&& says(unknown[0], "汇率不可用——尚未成功拉取过汇率，统计暂缺"@, true)
                },
            }
        }),
{
    lemma_notices_say("汇率基准 "@ + base + "，更新时间 "@ + stamp(at as int));
    match failure {
        Some(f) => {
            lemma_notices_say(
                "最近一次刷新 "@ + stamp(f.attempted_at as int) + " 失败："@ + f.reason,
            );
            lemma_notices_say(
                "汇率不可用——尚未成功拉取过汇率，统计暂缺；最近一次尝试 "@ + stamp(
                    f.attempted_at as int,
                ) + " 失败："@ + f.reason,
            );
        },
        None => {
            lemma_notices_say("汇率不可用——尚未成功拉取过汇率，统计暂缺"@);
        },
    }
}

/// Currencies without a rate, and cycles that are not recognised, are named in a warning; without
/// any there is none. The importing edition says nothing of cycles.
pub proof fn law_what_is_left_out_is_named(
    missing: Seq<Seq<char>>,
    nodes: Seq<(i64, NodeView)>,
)
    ensures
        missing.len() == 0 ==> missing_notices(missing).len() == 0,
        missing.len() > 0 ==> missing_notices(missing).len() == 1 && says(
            missing_notices(missing)[0],
            "部分节点币种未在 Frankfurter 汇率表中（"@ + joined(missing, "、"@) + "），未计入汇总"@,
            true,
        ),
        cycle_notices(Edition::Importing, nodes).len() == 0,
        strange_cycles(nodes).len() == 0 ==> cycle_notices(Edition::Reconciling, nodes).len() == 0,
        strange_cycles(nodes).len() > 0 ==> cycle_notices(Edition::Reconciling, nodes).len() == 1
            && says(
            cycle_notices(Edition::Reconciling, nodes)[0],
            "部分节点的计费周期无法识别（"@ + joined(strange_cycles(nodes), "、"@)
                + "），未计入年化成本"@,
            true,
        ),
{
    lemma_notices_say(
        "部分节点币种未在 Frankfurter 汇率表中（"@ + joined(missing, "、"@) + "），未计入汇总"@,
    );
    lemma_notices_say(
        "部分节点的计费周期无法识别（"@ + joined(strange_cycles(nodes), "、"@)
            + "），未计入年化成本"@,
    );
}

/// Whether a figure shows a value under a label.
pub open spec fn shows(item: JsonView, label: Seq<char>, value: Seq<char>) -> bool {
    &&& width(item) == 2
    &&& has(item, "label"@, JsonView::Text(label))
    &&& has(item, "value"@, JsonView::Text(value))
}

proof fn lemma_figure_shows(label: Seq<char>, value: Seq<char>)
    ensures
        shows(figure(label, value), label, value),
{
    if let JsonView::Object(parts) = figure(label, value) {
        assert(parts[0] == ("label"@, JsonView::Text(label)));
        assert(parts[1] == ("value"@, JsonView::Text(value)));
    }
}

/// In the reconciling edition the figures stand behind the notice about currencies without a rate:
/// the choice of the currency, then the yearly cost, then the remaining value, each in that
/// currency, and dashes without rates.
pub proof fn law_the_totals_of_the_reconciling_edition(target: Seq<char>, sums: Option<SumsView>)
    ensures
        ({
            let blocks = total_blocks(Edition::Reconciling, target, sums);
            let figures = blocks.last();
            &&& has(figures, "type"@, JsonView::Text("stat"@))
            &&& exists|items: Seq<JsonView>|
                {
                    &&& #[trigger] has(figures, "items"@, JsonView::List(items))
                    &&& items.len() == 3
                    &&& has(items[0], "label"@, JsonView::Text("展示币种"@))
                    &&& exists|choice: JsonView|
                        {
                            &&& #[trigger] has(items[0], "select"@, choice)
                            &&& has(choice, "value"@, JsonView::Text(target))
                            &&& has(
                                choice,
                                "options"@,
                                currency_choices(Edition::Reconciling),
                            )
                            &&& has(choice, "action"@, JsonView::Text("set_currency"@))
                        }
                    &&& match sums {
                        Some(s) => shows(
                            items[1],
                            "年化续费总成本"@,
                            amount_text(target, s.annual),
                        ) && shows(items[2], "剩余总价值"@, amount_text(target, s.remaining)),
                        None => shows(items[1], "年化续费总成本"@, "—"@) && shows(
                            items[2],
                            "剩余总价值"@,
                            "—"@,
                        ),
                    }
                }
            &&& blocks.drop_last() == match sums {
                Some(s) => missing_notices(s.missing),
                None => Seq::empty(),
            }
        }),
{
    let annual = match sums {
        Some(s) => Some(s.annual),
        None => None,
    };
    let remaining = match sums {
        Some(s) => Some(s.remaining),
        None => None,
    };
    let items = no_values().push(target_figure(target)).push(
        figure("年化续费总成本"@, sum_words(target, annual)),
    ).push(figure("剩余总价值"@, sum_words(target, remaining)));
    lemma_figure_shows("年化续费总成本"@, sum_words(target, annual));
    lemma_figure_shows("剩余总价值"@, sum_words(target, remaining));
    lemma_stat(items);
    let choice = JsonView::Object(
        no_fields().push(("value"@, JsonView::Text(target))).push(
            ("options"@, currency_choices(Edition::Reconciling)),
        ).push(("action"@, JsonView::Text("set_currency"@))),
    );
    if let JsonView::Object(parts) = choice {
        assert(parts[0] == ("value"@, JsonView::Text(target)));
        assert(parts[1] == ("options"@, currency_choices(Edition::Reconciling)));
        assert(parts[2] == ("action"@, JsonView::Text("set_currency"@)));
    }
    if let JsonView::Object(parts) = items[0] {
        assert(parts[0] == ("label"@, JsonView::Text("展示币种"@)));
        assert(parts[1] == ("select"@, choice));
    }
    assert(has(items[0], "select"@, choice));
    let blocks = total_blocks(Edition::Reconciling, target, sums);
    assert(blocks.last() == stat(items));
    assert(has(blocks.last(), "items"@, JsonView::List(items)));
}

proof fn lemma_stat(items: Seq<JsonView>)
    ensures
        has(stat(items), "type"@, JsonView::Text("stat"@)),
        has(stat(items), "items"@, JsonView::List(items)),
{
    if let JsonView::Object(parts) = stat(items) {
        assert(parts[0] == ("type"@, JsonView::Text("stat"@)));
        assert(parts[1] == ("items"@, JsonView::List(items)));
    }
}

/// In the importing edition the figures stand first, where there are rates: the yearly cost, then
/// the remaining value, each labelled with the currency. Behind them stand the notice about
/// currencies without a rate and the choice of the currency.
pub proof fn law_the_totals_of_the_importing_edition(target: Seq<char>, s: SumsView)
    ensures
        ({
            let blocks = total_blocks(Edition::Importing, target, Some(s));
            let choice = blocks.last();
            &&& has(blocks[0], "type"@, JsonView::Text("stat"@))
            &&& exists|items: Seq<JsonView>|
                {
                    &&& #[trigger] has(blocks[0], "items"@, JsonView::List(items))
                    &&& items.len() == 2
                    &&& shows(items[0], "年化续费总成本（"@ + target + "）"@, s.annual)
                    &&& shows(items[1], "剩余总价值（"@ + target + "）"@, s.remaining)
                }
            &&& blocks.drop_first().drop_last() == missing_notices(s.missing)
            &&& has(choice, "type"@, JsonView::Text("select"@))
            &&& has(choice, "label"@, JsonView::Text("展示币种"@))
            &&& has(choice, "name"@, JsonView::Text("target_currency"@))
            &&& has(choice, "value"@, JsonView::Text(target))
            &&& has(choice, "options"@, currency_choices(Edition::Importing))
            &&& has(choice, "action"@, JsonView::Text("set_currency"@))
            &&& total_blocks(Edition::Importing, target, None) == seq![choice]
        }),
{
    let items = no_values().push(figure("年化续费总成本（"@ + target + "）"@, s.annual)).push(
        figure("剩余总价值（"@ + target + "）"@, s.remaining),
    );
    lemma_figure_shows("年化续费总成本（"@ + target + "）"@, s.annual);
    lemma_figure_shows("剩余总价值（"@ + target + "）"@, s.remaining);
    lemma_stat(items);
    let blocks = total_blocks(Edition::Importing, target, Some(s));
    assert(blocks[0] == stat(items));
    assert(has(blocks[0], "items"@, JsonView::List(items)));
    assert(blocks.drop_first().drop_last() == missing_notices(s.missing));
    if let JsonView::Object(parts) = target_select(target) {
        assert(parts[0] == ("type"@, JsonView::Text("select"@)));
        assert(parts[1] == ("name"@, JsonView::Text("target_currency"@)));
        assert(parts[2] == ("label"@, JsonView::Text("展示币种"@)));
        assert(parts[3] == ("value"@, JsonView::Text(target)));
        assert(parts[4] == ("options"@, currency_choices(Edition::Importing)));
        assert(parts[5] == ("action"@, JsonView::Text("set_currency"@)));
    }
    assert(total_blocks(Edition::Importing, target, None) == seq![target_select(target)]);
}

/// A page has a title and its blocks: a warning first where the records could not be read, then
/// what there is to say of the rates, the totals, the cycles that are not recognised, the table of
/// what expires soon, and the form.
pub proof fn law_the_parts_of_a_page(edition: Edition, data: PageView)
    ensures
        ({
            let blocks = page_blocks(edition, data);
            let first = if data.unreadable {
                1int
            } else {
                0int
            };
            let rates = rate_notices(data.rates, data.failure);
            let totals = total_blocks(edition, data.target, data.sums);
            let cycles = cycle_notices(edition, data.nodes);
            &&& width(page(edition, data)) == 2
            &&& has(page(edition, data), "title"@, JsonView::Text("财务统计"@))
            &&& has(page(edition, data), "blocks"@, JsonView::List(blocks))
            &&& blocks.len() == first + rates.len() + totals.len() + cycles.len() + 2
            &&& data.unreadable ==> says(
                blocks[0],
                "读不到插件存的节点记录（可能超出单次读取上限或数据库出错），本轮没有对账，下面的表与统计暂缺；记录本身没有被改动，下次能读到时照旧"@,
                true,
            )
            &&& blocks.subrange(first, first + rates.len()) == rates
            &&& blocks.subrange(first + rates.len(), first + rates.len() + totals.len()) == totals
            &&& blocks.subrange(
                first + rates.len() + totals.len(),
                first + rates.len() + totals.len() + cycles.len(),
            ) == cycles
            &&& blocks.last() == form(edition, data.nodes)
        }),
{
    lemma_notices_say(unreadable_words());
    if let JsonView::Object(parts) = page(edition, data) {
        assert(parts[0] == ("title"@, JsonView::Text("财务统计"@)));
        assert(parts[1] == ("blocks"@, JsonView::List(page_blocks(edition, data))));
    }
}

} // verus!
