//! The totals: what every node adds to the yearly cost and to the remaining value.
//!
//! Amounts of money are doubles, so the sums themselves are worked out by the host of this
//! library. What is added, in what order, and what is left out is decided here.
use vstd::prelude::*;

use crate::calendar::{days_between, law_day_numbers_are_bounded, law_order_is_day_order, Date};
use crate::finance::billing::{
    cycle_months, free, is_free, lemma_cycle_names_differ, law_cycles_have_their_months, months_of,
};
use crate::finance::effect::FxView;
use crate::finance::expiry::days_from;
use crate::finance::record::{nodes_view, opt_date, read_date, Edition, Fx, NodeFin, NodeView};
use crate::json::rates_view;
use crate::text::{ascending, place, placed, same, texts};

verus! {

/// An amount in the currency of its node. A price stands as the bits of its double.
#[derive(Debug, Clone, Copy, PartialEq, Eq, Structural)]
pub enum Amount {
    /// The price of some months, scaled to a year: `price * (12 / months)`.
    Yearly { price: u64, months: u32 },
    /// Nothing.
    Zero,
    /// The part of a price for some days of a longer span: `price * (days / span)`.
    Prorated { price: u64, days: i64, span: i64 },
}

/// How an amount becomes one in the currency of the totals.
#[derive(Debug, Clone, Copy, PartialEq, Eq, Structural)]
pub enum Conversion {
    /// It is in that currency already.
    Same,
    /// It is divided by the rate with these bits.
    DivideBy { rate: u64 },
}

/// What is added to a sum: an amount, converted.
#[derive(Debug, Clone, Copy, PartialEq, Eq, Structural)]
pub struct Term {
    pub amount: Amount,
    pub conversion: Conversion,
}

/// What makes up the totals, in the order of the nodes, and the currencies that have no rate.
#[derive(Debug)]
pub struct Totals {
    pub annual: Vec<Term>,
    pub remaining: Vec<Term>,
    pub missing: Vec<String>,
}

/// What makes up the totals in the abstract.
pub ghost struct TotalsView {
    pub annual: Seq<Term>,
    pub remaining: Seq<Term>,
    pub missing: Seq<Seq<char>>,
}

impl View for Totals {
    type V = TotalsView;

    open spec fn view(&self) -> TotalsView {
        TotalsView { annual: self.annual@, remaining: self.remaining@, missing: texts(self.missing@) }
    }
}

/// The yearly cost of a node. One that is free, or is not paid by a cycle, has none.
pub open spec fn cost(edition: Edition, node: NodeView) -> Option<Amount> {
    if free(edition, node) {
        None
    } else {
        match months_of(node.billing_cycle) {
            Some(months) => Some(Amount::Yearly { price: node.price, months }),
            None => None,
        }
    }
}

/// The yearly cost of a node. One that is free, or is not paid by a cycle, has none.
pub fn annual_cost(edition: Edition, node: &NodeFin) -> (r: Option<Amount>)
    ensures
        r == cost(edition, node@),
{
    if is_free(edition, node) {
        return None;
    }
    match cycle_months(node.billing_cycle.as_str()) {
        Some(months) => Some(Amount::Yearly { price: node.price, months }),
        None => None,
    }
}

/// The part of a price for the days left of a span, of which no more than the span count.
pub open spec fn part(price: u64, days_left: int, span: int) -> Amount {
    Amount::Prorated {
        price,
        days: (if days_left <= span {
            days_left
        } else {
            span
        }) as i64,
        span: span as i64,
    }
}

/// What is left of the price of a node: the part for the days left of its cycle, which counts
/// thirty days for each month, or, for what is paid once, of the days since it was bought. Nothing
/// is left past the expiry date, or without one. A node that is free has no such value, nor has one
/// whose expiry date cannot be read.
pub open spec fn value_left(edition: Edition, node: NodeView, day: Date) -> Option<Amount> {
    match opt_date(node.expires_at) {
        Some(date) => if free(edition, node) {
            None
        } else if days_from(day, date) <= 0 {
            Some(Amount::Zero)
        } else {
            let days_left = days_from(day, date) as int;
            match (months_of(node.billing_cycle), opt_date(node.purchased_at)) {
                (Some(months), _) => Some(part(node.price, days_left, months * 30)),
                (None, Some(bought)) => Some(
                    part(
                        node.price,
                        days_left,
                        if days_from(bought, date) > 1 {
                            days_from(bought, date) as int
                        } else {
                            1
                        },
                    ),
                ),
                (None, None) => Some(Amount::Zero),
            }
        },
        None => if free(edition, node) || node.expires_at is Some {
            None
        } else {
            Some(Amount::Zero)
        },
    }
}

fn part_of(price: u64, days_left: i64, span: i64) -> (r: Amount)
    ensures
        r == part(price, days_left as int, span as int),
{
    Amount::Prorated {
        price,
        days: if days_left <= span {
            days_left
        } else {
            span
        },
        span,
    }
}

/// What is left of the price of a node.
pub fn remaining_value(edition: Edition, node: &NodeFin, day: &Date) -> (r: Option<Amount>)
    requires
        day.valid(),
    ensures
        r == value_left(edition, node@, *day),
{
    if is_free(edition, node) {
        return None;
    }
    let date = match read_date(&node.expires_at) {
        Some(d) => d,
        None => {
            return match &node.expires_at {
                Some(_) => None,
                None => Some(Amount::Zero),
            };
        },
    };
    let days_left: i64 = days_between(&date, day);
    if days_left <= 0 {
        return Some(Amount::Zero);
    }
    match cycle_months(node.billing_cycle.as_str()) {
        Some(months) => Some(part_of(node.price, days_left, months as i64 * 30)),
        None => match read_date(&node.purchased_at) {
            Some(bought) => {
                let total: i64 = days_between(&date, &bought);
                Some(
                    part_of(
                        node.price,
                        days_left,
                        if total > 1 {
                            total
                        } else {
                            1
                        },
                    ),
                )
            },
            None => Some(Amount::Zero),
        },
    }
}

/// The rate of a currency in a list.
pub open spec fn rate_of(rates: Seq<(Seq<char>, u64)>, code: Seq<char>) -> Option<u64>
    decreases rates.len(),
{
    if rates.len() == 0 {
        None
    } else if rates[0].0 == code {
        Some(rates[0].1)
    } else {
        rate_of(rates.skip(1), code)
    }
}

/// Whether the double with these bits is zero.
pub open spec fn is_zero(bits: u64) -> bool {
    bits == 0 || bits == 0x8000_0000_0000_0000
}

/// How an amount in a currency becomes one in the base of the rates: not at all without a rate, or
/// with a rate of zero.
pub open spec fn conversion(fx: FxView, from: Seq<char>) -> Option<Conversion> {
    if from == fx.base {
        Some(Conversion::Same)
    } else {
        match rate_of(fx.rates, from) {
            Some(rate) => if is_zero(rate) {
                None
            } else {
                Some(Conversion::DivideBy { rate })
            },
            None => None,
        }
    }
}

fn find_rate(rates: &Vec<(String, u64)>, code: &str) -> (r: Option<u64>)
    ensures
        r == rate_of(rates_view(rates@), code@),
{
    let ghost all = rates_view(rates@);
    let mut i: usize = 0;
    assert(all.skip(0) == all);
    while i < rates.len()
        invariant
            0 <= i <= rates@.len(),
            all == rates_view(rates@),
            rate_of(all, code@) == rate_of(all.skip(i as int), code@),
        decreases rates@.len() - i,
    {
        assert(all.skip(i as int)[0] == (rates@[i as int].0@, rates@[i as int].1));
        assert(all.skip(i as int).skip(1) == all.skip(i + 1));
        if same(rates[i].0.as_str(), code) {
            return Some(rates[i].1);
        }
        i += 1;
    }
    assert(all.skip(i as int).len() == 0);
    None
}

/// How an amount in a currency becomes one in the base of the rates.
pub fn convert(fx: &Fx, from: &str) -> (r: Option<Conversion>)
    ensures
        r == conversion(fx@, from@),
{
    if same(from, fx.base.as_str()) {
        return Some(Conversion::Same);
    }
    match find_rate(&fx.rates, from) {
        Some(rate) => if rate == 0 || rate == 0x8000_0000_0000_0000 {
            None
        } else {
            Some(Conversion::DivideBy { rate })
        },
        None => None,
    }
}

/// A sum with one amount more. One that cannot be converted is left out.
pub open spec fn with_amount(
    sum: Seq<Term>,
    amount: Option<Amount>,
    how: Option<Conversion>,
) -> Seq<
    Term,
> {
    match (amount, how) {
        (Some(amount), Some(conversion)) => sum.push(Term { amount, conversion }),
        _ => sum,
    }
}

/// The currencies without a rate, with that of a node's amount.
pub open spec fn with_missing(
    missing: Seq<Seq<char>>,
    amount: Option<Amount>,
    how: Option<Conversion>,
    code: Seq<char>,
) -> Seq<Seq<char>> {
    if amount is Some && how is None {
        placed(missing, code)
    } else {
        missing
    }
}

/// What makes up the totals.
pub open spec fn sums(
    edition: Edition,
    fx: FxView,
    nodes: Seq<(i64, NodeView)>,
    day: Date,
) -> TotalsView
    decreases nodes.len(),
{
    if nodes.len() == 0 {
        TotalsView { annual: Seq::empty(), remaining: Seq::empty(), missing: Seq::empty() }
    } else {
        let before = sums(edition, fx, nodes.drop_last(), day);
        let node = nodes.last().1;
        let how = conversion(fx, node.currency);
        let yearly = cost(edition, node);
        let left = value_left(edition, node, day);
        TotalsView {
            annual: with_amount(before.annual, yearly, how),
            remaining: with_amount(before.remaining, left, how),
            missing: with_missing(
                with_missing(before.missing, yearly, how, node.currency),
                left,
                how,
                node.currency,
            ),
        }
    }
}

/// Works out what makes up the totals in the base of the rates. An amount in a currency without a
/// rate is left out, and its currency is named.
pub fn totals(edition: Edition, fx: &Fx, nodes: &Vec<(i64, NodeFin)>, day: &Date) -> (r: Totals)
    requires
        day.valid(),
    ensures
        r@ == sums(edition, fx@, nodes_view(nodes@), *day),
        ascending(r@.missing),
{
    let ghost all = nodes_view(nodes@);
    let mut annual: Vec<Term> = Vec::new();
    let mut remaining: Vec<Term> = Vec::new();
    let mut missing: Vec<String> = Vec::new();
    let mut i: usize = 0;
    proof {
        assert(all.take(0) == Seq::<(i64, NodeView)>::empty());
        assert(texts(missing@) == Seq::<Seq<char>>::empty());
    }
    while i < nodes.len()
        invariant
            0 <= i <= nodes@.len(),
            day.valid(),
            all == nodes_view(nodes@),
            annual@ == sums(edition, fx@, all.take(i as int), *day).annual,
            remaining@ == sums(edition, fx@, all.take(i as int), *day).remaining,
            texts(missing@) == sums(edition, fx@, all.take(i as int), *day).missing,
        decreases nodes@.len() - i,
    {
        assert(all.take(i + 1).drop_last() == all.take(i as int));
        assert(all.take(i + 1).last() == (nodes@[i as int].0, nodes@[i as int].1@));
        let node = &nodes[i].1;
        let how = convert(fx, node.currency.as_str());
        match annual_cost(edition, node) {
            Some(amount) => match how {
                Some(conversion) => annual.push(Term { amount, conversion }),
                None => place(&mut missing, node.currency.as_str()),
            },
            None => {},
        }
        match remaining_value(edition, node, day) {
            Some(amount) => match how {
                Some(conversion) => remaining.push(Term { amount, conversion }),
                None => place(&mut missing, node.currency.as_str()),
            },
            None => {},
        }
        i += 1;
    }
    assert(all.take(i as int) == all);
    proof {
        law_missing_is_in_order(edition, fx@, all, *day);
    }
    Totals { annual, remaining, missing }
}

// ---------------------------------------------------------------------------
// What the totals promise
// ---------------------------------------------------------------------------

/// The currencies without a rate are named in order, each once.
pub proof fn law_missing_is_in_order(
    edition: Edition,
    fx: FxView,
    nodes: Seq<(i64, NodeView)>,
    day: Date,
)
    ensures
        ascending(sums(edition, fx, nodes, day).missing),
    decreases nodes.len(),
{
    if nodes.len() > 0 {
        let before = sums(edition, fx, nodes.drop_last(), day);
        let node = nodes.last().1;
        law_missing_is_in_order(edition, fx, nodes.drop_last(), day);
        crate::text::law_placed_keeps_order(before.missing, node.currency);
        crate::text::law_placed_keeps_order(placed(before.missing, node.currency), node.currency);
    }
}

/// A free node adds nothing to either sum, whatever its price and currency say.
pub proof fn law_free_nodes_add_nothing(
    edition: Edition,
    fx: FxView,
    nodes: Seq<(i64, NodeView)>,
    day: Date,
)
    requires
        nodes.len() > 0,
        free(edition, nodes.last().1),
    ensures
        sums(edition, fx, nodes, day) == sums(edition, fx, nodes.drop_last(), day),
{
}

/// What is paid once adds nothing to the yearly cost.
pub proof fn law_single_payments_are_not_yearly(edition: Edition, node: NodeView)
    requires
        node.billing_cycle == "once"@,
    ensures
        cost(edition, node) is None,
{
    reveal_strlit("once");
    reveal_strlit("monthly");
    reveal_strlit("quarterly");
    reveal_strlit("semiannual");
    reveal_strlit("yearly");
    reveal_strlit("biennial");
    reveal_strlit("triennial");
    assert(node.billing_cycle.len() == 4);
    assert("monthly"@.len() == 7 && "quarterly"@.len() == 9 && "semiannual"@.len() == 10);
    assert("yearly"@.len() == 6 && "biennial"@.len() == 8 && "triennial"@.len() == 9);
}

/// What is left of a price is never more than the price: it is for no more days than the span has.
pub proof fn law_value_left_is_within_the_price(edition: Edition, node: NodeView, day: Date)
    ensures
        value_left(edition, node, day) matches Some(Amount::Prorated { price, days, span }) ==> price
            == node.price && 0 < days <= span,
{
}

/// A currency is named as missing exactly where a node with an amount is in it and it cannot be
/// converted; the base of the rates never is.
pub proof fn law_missing_currencies_are_those_without_a_rate(
    edition: Edition,
    fx: FxView,
    nodes: Seq<(i64, NodeView)>,
    day: Date,
    code: Seq<char>,
)
    ensures
        sums(edition, fx, nodes, day).missing.contains(code) <==> conversion(fx, code) is None
            && exists|i: int|
            0 <= i < nodes.len() && (#[trigger] nodes[i]).1.currency == code && counts(
                edition,
                nodes[i].1,
                day,
            ),
        sums(edition, fx, nodes, day).missing.contains(code) ==> code != fx.base,
    decreases nodes.len(),
{
    if nodes.len() > 0 {
        let init = nodes.drop_last();
        let node = nodes.last().1;
        let before = sums(edition, fx, init, day).missing;
        let how = conversion(fx, node.currency);
        let middle = with_missing(before, cost(edition, node), how, node.currency);
        law_missing_currencies_are_those_without_a_rate(edition, fx, init, day, code);
        law_missing_is_in_order(edition, fx, init, day);
        crate::text::law_placed_keeps_order(before, node.currency);
        crate::text::law_placed_keeps_order(middle, node.currency);
        if exists|i: int|
            0 <= i < nodes.len() && (#[trigger] nodes[i]).1.currency == code && counts(
                edition,
                nodes[i].1,
                day,
            ) {
            let i = choose|i: int|
                0 <= i < nodes.len() && (#[trigger] nodes[i]).1.currency == code && counts(
                    edition,
                    nodes[i].1,
                    day,
                );
            if i < nodes.len() - 1 {
                assert(init[i].1.currency == code);
            }
        }
        if exists|i: int|
            0 <= i < init.len() && (#[trigger] init[i]).1.currency == code && counts(
                edition,
                init[i].1,
                day,
            ) {
            let i = choose|i: int|
                0 <= i < init.len() && (#[trigger] init[i]).1.currency == code && counts(
                    edition,
                    init[i].1,
                    day,
                );
            assert(nodes[i].1.currency == code);
        }
        assert(nodes[nodes.len() - 1].1 == node);
    }
}

/// Whether a node has an amount in either sum.
pub open spec fn counts(edition: Edition, node: NodeView, day: Date) -> bool {
    cost(edition, node) is Some || value_left(edition, node, day) is Some
}

/// What is left of a price that is paid by a cycle: the part for the days left, of thirty days for
/// each month of the cycle. More days than the cycle has count as the whole of it.
pub proof fn law_what_is_left_goes_by_the_cycle(
    edition: Edition,
    node: NodeView,
    day: Date,
    date: Date,
    span: i64,
)
    requires
        !free(edition, node),
        day.valid(),
        date.valid(),
        opt_date(node.expires_at) == Some(date),
        day.before(date),
        (node.billing_cycle == "monthly"@ && span == 30) || (node.billing_cycle == "quarterly"@
            && span == 90) || (node.billing_cycle == "semiannual"@ && span == 180) || (
        node.billing_cycle == "yearly"@ && span == 360) || (node.billing_cycle == "biennial"@
            && span == 720) || (node.billing_cycle == "triennial"@ && span == 1080),
    ensures
        value_left(edition, node, day) matches Some(Amount::Prorated { price, days, span: whole })
            && price == node.price && whole == span && days == if date.number() - day.number()
            < span {
            date.number() - day.number()
        } else {
            span as int
        },
{
    law_cycles_have_their_months(node.billing_cycle);
    law_order_is_day_order(day, date);
    law_day_numbers_are_bounded(day);
    law_day_numbers_are_bounded(date);
}

/// Twice the months of a cycle make twice the span that a price is spread over, so that while both
/// last the longer one leaves half of what the shorter one does.
pub proof fn law_longer_cycles_spread_a_price_further(
    edition: Edition,
    short: NodeView,
    long: NodeView,
    day: Date,
)
    requires
        long == (NodeView { billing_cycle: long.billing_cycle, ..short }),
        (short.billing_cycle == "quarterly"@ && long.billing_cycle == "semiannual"@) || (
        short.billing_cycle == "semiannual"@ && long.billing_cycle == "yearly"@) || (
        short.billing_cycle == "yearly"@ && long.billing_cycle == "biennial"@),
    ensures
        value_left(edition, short, day) matches Some(Amount::Prorated { days, span, .. }) ==> (
        value_left(edition, long, day) matches Some(Amount::Prorated { days: d, span: s, .. }) && s
            == 2 * span && days <= d <= 2 * days && (days < span ==> d == days)),
{
    law_cycles_have_their_months(short.billing_cycle);
    law_cycles_have_their_months(long.billing_cycle);
    lemma_cycle_names_differ();
}

/// What is left of a price that is paid by none of the six cycles, such as a single payment: the
/// part for the days left, of the days from the purchase to the expiry. A purchase on the day of
/// the expiry or after it counts as one day before.
pub proof fn law_what_is_left_of_a_single_payment(
    edition: Edition,
    node: NodeView,
    day: Date,
    date: Date,
    bought: Date,
    span: int,
)
    requires
        !free(edition, node),
        day.valid(),
        date.valid(),
        bought.valid(),
        opt_date(node.expires_at) == Some(date),
        opt_date(node.purchased_at) == Some(bought),
        node.billing_cycle != "monthly"@,
        node.billing_cycle != "quarterly"@,
        node.billing_cycle != "semiannual"@,
        node.billing_cycle != "yearly"@,
        node.billing_cycle != "biennial"@,
        node.billing_cycle != "triennial"@,
        day.before(date),
        span >= 1,
        bought.before(date) ==> span == date.number() - bought.number(),
        !bought.before(date) ==> span == 1,
    ensures
        value_left(edition, node, day) matches Some(Amount::Prorated { price, days, span: whole })
            && price == node.price && whole == span && days == if date.number() - day.number()
            < span {
            date.number() - day.number()
        } else {
            span
        },
{
    law_cycles_have_their_months(node.billing_cycle);
    lemma_cycle_names_differ();
    law_order_is_day_order(day, date);
    law_order_is_day_order(bought, date);
    law_day_numbers_are_bounded(day);
    law_day_numbers_are_bounded(date);
    law_day_numbers_are_bounded(bought);
}

/// Nothing is left of a price on the day of the expiry and after it, nor where no expiry date is
/// known, nor of a price for no cycle of which the day is not known. A free node, and one whose expiry
/// date cannot be read, do not count at all.
pub proof fn law_when_nothing_is_left(edition: Edition, node: NodeView, day: Date)
    requires
        day.valid(),
        opt_date(node.expires_at) matches Some(d) ==> d.valid(),
    ensures
        free(edition, node) ==> value_left(edition, node, day) is None,
        !free(edition, node) && node.expires_at is None ==> value_left(edition, node, day) == Some(
            Amount::Zero,
        ),
        node.expires_at is Some && opt_date(node.expires_at) is None ==> value_left(
            edition,
            node,
            day,
        ) is None,
        !free(edition, node) && (opt_date(node.expires_at) matches Some(d) && !day.before(d))
            ==> value_left(edition, node, day) == Some(Amount::Zero),
        !free(edition, node) && months_of(node.billing_cycle) is None && opt_date(
            node.expires_at,
        ) is Some
            && opt_date(node.purchased_at) is None ==> value_left(edition, node, day) == Some(
            Amount::Zero,
        ),
{
    law_cycles_have_their_months(node.billing_cycle);
    lemma_cycle_names_differ();
    if let Some(date) = opt_date(node.expires_at) {
        law_order_is_day_order(day, date);
        law_day_numbers_are_bounded(day);
        law_day_numbers_are_bounded(date);
    }
}

/// The yearly cost of a node is its price scaled by twelve over the months of its own cycle: a
/// price for a month counts twelve times, one for two years by half, one for three by a third. A
/// node that is free, or is paid by none of the six cycles, has none.
pub proof fn law_yearly_cost_goes_by_the_cycle(edition: Edition, node: NodeView)
    ensures
        free(edition, node) ==> cost(edition, node) is None,
        !free(edition, node) ==> {
            let yearly = cost(edition, node);
            &&& node.billing_cycle == "monthly"@ ==> yearly == Some(
                Amount::Yearly { price: node.price, months: 1 },
            )
            &&& node.billing_cycle == "quarterly"@ ==> yearly == Some(
                Amount::Yearly { price: node.price, months: 3 },
            )
            &&& node.billing_cycle == "semiannual"@ ==> yearly == Some(
                Amount::Yearly { price: node.price, months: 6 },
            )
            &&& node.billing_cycle == "yearly"@ ==> yearly == Some(
                Amount::Yearly { price: node.price, months: 12 },
            )
            &&& node.billing_cycle == "biennial"@ ==> yearly == Some(
                Amount::Yearly { price: node.price, months: 24 },
            )
            &&& node.billing_cycle == "triennial"@ ==> yearly == Some(
                Amount::Yearly { price: node.price, months: 36 },
            )
        },
        cost(edition, node) is Some ==> node.billing_cycle == "monthly"@ || node.billing_cycle
            == "quarterly"@ || node.billing_cycle == "semiannual"@ || node.billing_cycle
            == "yearly"@ || node.billing_cycle == "biennial"@ || node.billing_cycle
            == "triennial"@,
{
    law_cycles_have_their_months(node.billing_cycle);
}

/// The rate of a currency is that of the first entry under its code.
pub proof fn law_rates_are_looked_up(rates: Seq<(Seq<char>, u64)>, code: Seq<char>)
    ensures
        rate_of(rates, code) is None <==> forall|i: int|
            0 <= i < rates.len() ==> (#[trigger] rates[i]).0 != code,
        forall|i: int|
            0 <= i < rates.len() && (#[trigger] rates[i]).0 == code && (forall|j: int|
                0 <= j < i ==> (#[trigger] rates[j]).0 != code) ==> rate_of(rates, code) == Some(
                rates[i].1,
            ),
    decreases rates.len(),
{
    if rates.len() > 0 {
        let rest = rates.skip(1);
        law_rates_are_looked_up(rest, code);
        assert forall|i: int| 0 <= i < rates.len() && (#[trigger] rates[i]).0 == code && (forall|
            j: int,
        |
            0 <= j < i ==> (#[trigger] rates[j]).0 != code) implies rate_of(rates, code) == Some(
            rates[i].1,
        ) by {
            if i > 0 {
                assert(rates[0].0 != code);
                assert(rest[i - 1] == rates[i]);
                assert forall|j: int| 0 <= j < i - 1 implies (#[trigger] rest[j]).0 != code by {
                    assert(rates[j + 1].0 != code);
                }
            }
        }
        if rates[0].0 != code {
            if rate_of(rest, code) is None {
                assert forall|i: int| 0 <= i < rates.len() implies (#[trigger] rates[i]).0
                    != code by {
                    if i > 0 {
                        assert(rest[i - 1].0 != code);
                    }
                }
            } else {
                let i = choose|i: int| 0 <= i < rest.len() && (#[trigger] rest[i]).0 == code;
                assert(rates[i + 1].0 == code);
            }
        }
    }
}

/// An amount in the base of the rates stays as it is. One in another currency is divided by the
/// rate of that currency, and cannot be converted where that is missing or zero with either sign.
pub proof fn law_amounts_are_divided_by_their_rate(fx: FxView, code: Seq<char>, i: int)
    requires
        0 <= i < fx.rates.len(),
        fx.rates[i].0 == code,
        forall|j: int| 0 <= j < i ==> (#[trigger] fx.rates[j]).0 != code,
    ensures
        code == fx.base ==> conversion(fx, code) == Some(Conversion::Same),
        code != fx.base && fx.rates[i].1 != 0 && fx.rates[i].1 != 0x8000_0000_0000_0000
            ==> conversion(fx, code) == Some(Conversion::DivideBy { rate: fx.rates[i].1 }),
        code != fx.base && (fx.rates[i].1 == 0 || fx.rates[i].1 == 0x8000_0000_0000_0000)
            ==> conversion(fx, code) is None,
{
    law_rates_are_looked_up(fx.rates, code);
}

/// A currency that the rates do not list cannot be converted, unless it is their base.
pub proof fn law_unlisted_currencies_cannot_be_converted(fx: FxView, code: Seq<char>)
    requires
        forall|i: int| 0 <= i < fx.rates.len() ==> (#[trigger] fx.rates[i]).0 != code,
    ensures
        conversion(fx, code) == if code == fx.base {
            Some(Conversion::Same)
        } else {
            None
        },
{
    law_rates_are_looked_up(fx.rates, code);
}

/// A node adds its yearly cost to the one sum and what is left of its price to the other, each
/// converted from the node's own currency, behind what the nodes before it add. Where its currency
/// cannot be converted it adds to neither.
pub proof fn law_each_node_adds_its_amounts(
    edition: Edition,
    fx: FxView,
    before: Seq<(i64, NodeView)>,
    id: i64,
    node: NodeView,
    day: Date,
)
    ensures
        ({
            let old = sums(edition, fx, before, day);
            let new = sums(edition, fx, before.push((id, node)), day);
            &&& conversion(fx, node.currency) is None ==> new.annual == old.annual && new.remaining
                == old.remaining
            &&& cost(edition, node) is None ==> new.annual == old.annual
            &&& value_left(edition, node, day) is None ==> new.remaining == old.remaining
            &&& conversion(fx, node.currency) matches Some(conversion) ==> {
                &&& cost(edition, node) matches Some(amount) ==> new.annual == old.annual.push(
                    Term { amount, conversion },
                )
                &&& value_left(edition, node, day) matches Some(amount) ==> new.remaining
                    == old.remaining.push(Term { amount, conversion })
                &&& new.missing == old.missing
            }
        }),
        sums(edition, fx, Seq::empty(), day).annual.len() == 0,
        sums(edition, fx, Seq::empty(), day).remaining.len() == 0,
{
    assert(before.push((id, node)).drop_last() == before);
}

} // verus!
