//! Billing cycles and currencies: what the plugin recognises, and how it shows them.
use vstd::prelude::*;

use crate::finance::record::{Edition, NodeFin, NodeView};
use crate::json::pairs_view;
use crate::text::same;

verus! {

/// The number of months of a billing cycle. What is paid once, or never, has none.
pub open spec fn months_of(cycle: Seq<char>) -> Option<u32> {
    if cycle == "monthly"@ {
        Some(1)
    } else if cycle == "quarterly"@ {
        Some(3)
    } else if cycle == "semiannual"@ {
        Some(6)
    } else if cycle == "yearly"@ {
        Some(12)
    } else if cycle == "biennial"@ {
        Some(24)
    } else if cycle == "triennial"@ {
        Some(36)
    } else {
        None
    }
}

/// The number of months of a billing cycle. What is paid once, or never, has none.
pub fn cycle_months(cycle: &str) -> (r: Option<u32>)
    ensures
        r == months_of(cycle@),
{
    if same(cycle, "monthly") {
        Some(1)
    } else if same(cycle, "quarterly") {
        Some(3)
    } else if same(cycle, "semiannual") {
        Some(6)
    } else if same(cycle, "yearly") {
        Some(12)
    } else if same(cycle, "biennial") {
        Some(24)
    } else if same(cycle, "triennial") {
        Some(36)
    } else {
        None
    }
}

/// Whether the double with these bits is at most zero.
pub open spec fn not_positive(bits: u64) -> bool {
    bits == 0 || 0x8000_0000_0000_0000 <= bits <= 0xfff0_0000_0000_0000
}

/// Whether a node costs nothing: its price is not positive, or, in the reconciling edition, its
/// cycle says so.
pub open spec fn free(edition: Edition, node: NodeView) -> bool {
    (edition == Edition::Reconciling && node.billing_cycle == "free"@) || not_positive(node.price)
}

/// Whether a node costs nothing.
pub fn is_free(edition: Edition, node: &NodeFin) -> (r: bool)
    ensures
        r == free(edition, node@),
{
    let named = match edition {
        Edition::Importing => false,
        Edition::Reconciling => same(node.billing_cycle.as_str(), "free"),
    };
    named || node.price == 0 || (0x8000_0000_0000_0000 <= node.price && node.price
        <= 0xfff0_0000_0000_0000)
}

/// Appends a pair of texts to a list.
fn entry(list: &mut Vec<(String, String)>, first: &str, second: &str)
    ensures
        pairs_view(final(list)@) == pairs_view(old(list)@).push((first@, second@)),
{
    list.push((first.to_owned(), second.to_owned()));
    assert(pairs_view(list@) == pairs_view(old(list)@).push((first@, second@)));
}

/// No pairs at all, to which those of a table are added.
pub open spec fn no_pairs() -> Seq<(Seq<char>, Seq<char>)> {
    Seq::empty()
}

/// The cycles that an operator can choose, each with its label.
pub open spec fn cycle_table(edition: Edition) -> Seq<(Seq<char>, Seq<char>)> {
    let paid = no_pairs().push(("monthly"@, "月付"@)).push(("quarterly"@, "季付"@)).push(
        ("semiannual"@, "半年付"@),
    ).push(("yearly"@, "年付"@)).push(("biennial"@, "两年付"@)).push(("triennial"@, "三年付"@)).push(
        ("once"@, "一次性"@),
    );
    match edition {
        Edition::Importing => paid,
        Edition::Reconciling => paid.push(("free"@, "免费"@)),
    }
}

/// The cycles that an operator can choose, each with its label.
pub fn cycles(edition: Edition) -> (r: Vec<(String, String)>)
    ensures
        pairs_view(r@) == cycle_table(edition),
{
    let mut list: Vec<(String, String)> = Vec::new();
    assert(pairs_view(list@) == no_pairs());
    entry(&mut list, "monthly", "月付");
    entry(&mut list, "quarterly", "季付");
    entry(&mut list, "semiannual", "半年付");
    entry(&mut list, "yearly", "年付");
    entry(&mut list, "biennial", "两年付");
    entry(&mut list, "triennial", "三年付");
    entry(&mut list, "once", "一次性");
    match edition {
        Edition::Importing => {},
        Edition::Reconciling => {
            entry(&mut list, "free", "免费");
        },
    }
    list
}

/// Whether the statistics recognise a cycle.
pub open spec fn recognised(cycle: Seq<char>) -> bool {
    cycle == "once"@ || cycle == "free"@ || months_of(cycle) is Some
}

/// Whether the statistics recognise a cycle.
pub fn is_recognised(cycle: &str) -> (r: bool)
    ensures
        r == recognised(cycle@),
{
    same(cycle, "once") || same(cycle, "free") || cycle_months(cycle).is_some()
}

/// Whatever cycle an operator can choose, the statistics recognise.
pub proof fn law_every_cycle_on_offer_is_recognised(edition: Edition, i: int)
    requires
        0 <= i < cycle_table(edition).len(),
    ensures
        recognised(cycle_table(edition)[i].0),
{
}

/// Every cycle with a number of months can be chosen.
pub proof fn law_every_paid_cycle_is_on_offer(edition: Edition, cycle: Seq<char>)
    requires
        months_of(cycle) is Some,
    ensures
        exists|i: int|
            0 <= i < cycle_table(edition).len() && #[trigger] cycle_table(edition)[i].0 == cycle,
{
    let table = cycle_table(edition);
    let i: int = if cycle == "monthly"@ {
        0
    } else if cycle == "quarterly"@ {
        1
    } else if cycle == "semiannual"@ {
        2
    } else if cycle == "yearly"@ {
        3
    } else if cycle == "biennial"@ {
        4
    } else {
        5
    };
    assert(table[i].0 == cycle);
}

// ---------------------------------------------------------------------------
// Currencies
// ---------------------------------------------------------------------------

/// The currencies that an operator can choose, each with its symbol.
pub open spec fn currency_table() -> Seq<(Seq<char>, Seq<char>)> {
    no_pairs().push(("CNY"@, "¥"@)).push(("USD"@, "$"@)).push(("EUR"@, "€"@)).push(
        ("GBP"@, "£"@),
    ).push(("JPY"@, "JP¥"@)).push(("CAD"@, "C$"@)).push(("HKD"@, "HK$"@)).push(
        ("AUD"@, "A$"@),
    ).push(("CHF"@, "CHF"@)).push(("SGD"@, "S$"@)).push(("KRW"@, "₩"@)).push(("INR"@, "₹"@))
}

/// The currencies that an operator can choose, each with its symbol.
pub fn currencies() -> (r: Vec<(String, String)>)
    ensures
        pairs_view(r@) == currency_table(),
{
    let mut list: Vec<(String, String)> = Vec::new();
    assert(pairs_view(list@) == no_pairs());
    entry(&mut list, "CNY", "¥");
    entry(&mut list, "USD", "$");
    entry(&mut list, "EUR", "€");
    entry(&mut list, "GBP", "£");
    entry(&mut list, "JPY", "JP¥");
    entry(&mut list, "CAD", "C$");
    entry(&mut list, "HKD", "HK$");
    entry(&mut list, "AUD", "A$");
    entry(&mut list, "CHF", "CHF");
    entry(&mut list, "SGD", "S$");
    entry(&mut list, "KRW", "₩");
    entry(&mut list, "INR", "₹");
    list
}

/// The symbol of a currency.
pub open spec fn symbol_of(code: Seq<char>) -> Option<Seq<char>> {
    if code == "CNY"@ {
        Some("¥"@)
    } else if code == "USD"@ {
        Some("$"@)
    } else if code == "EUR"@ {
        Some("€"@)
    } else if code == "GBP"@ {
        Some("£"@)
    } else if code == "JPY"@ {
        Some("JP¥"@)
    } else if code == "CAD"@ {
        Some("C$"@)
    } else if code == "HKD"@ {
        Some("HK$"@)
    } else if code == "AUD"@ {
        Some("A$"@)
    } else if code == "CHF"@ {
        Some("CHF"@)
    } else if code == "SGD"@ {
        Some("S$"@)
    } else if code == "KRW"@ {
        Some("₩"@)
    } else if code == "INR"@ {
        Some("₹"@)
    } else {
        None
    }
}

/// The symbol of a currency. One that cannot be chosen has none.
pub fn currency_symbol(code: &str) -> (r: Option<&'static str>)
    ensures
        r matches Some(s) ==> symbol_of(code@) == Some(s@),
        r is None <==> symbol_of(code@) is None,
{
    if same(code, "CNY") {
        Some("¥")
    } else if same(code, "USD") {
        Some("$")
    } else if same(code, "EUR") {
        Some("€")
    } else if same(code, "GBP") {
        Some("£")
    } else if same(code, "JPY") {
        Some("JP¥")
    } else if same(code, "CAD") {
        Some("C$")
    } else if same(code, "HKD") {
        Some("HK$")
    } else if same(code, "AUD") {
        Some("A$")
    } else if same(code, "CHF") {
        Some("CHF")
    } else if same(code, "SGD") {
        Some("S$")
    } else if same(code, "KRW") {
        Some("₩")
    } else if same(code, "INR") {
        Some("₹")
    } else {
        None
    }
}

/// What stands before a price: the currency's symbol, or its code where it has none.
pub open spec fn prefix_of(code: Seq<char>) -> Seq<char> {
    match symbol_of(code) {
        Some(symbol) => symbol,
        None => code,
    }
}

/// What stands before a price: the currency's symbol, or its code where it has none.
pub fn currency_prefix(code: &str) -> (r: &str)
    ensures
        r@ == prefix_of(code@),
{
    match currency_symbol(code) {
        Some(symbol) => symbol,
        None => code,
    }
}

/// An amount with its currency: the symbol before it, or else the code behind it.
pub open spec fn amount_text(code: Seq<char>, amount: Seq<char>) -> Seq<char> {
    match symbol_of(code) {
        Some(symbol) => symbol + amount,
        None => amount + " "@ + code,
    }
}

/// An amount, already in digits, with its currency: the symbol before it, or else the code behind
/// it.
pub fn money(code: &str, amount: &str) -> (r: String)
    ensures
        r@ == amount_text(code@, amount@),
{
    match currency_symbol(code) {
        Some(symbol) => {
            let mut out = symbol.to_owned();
            out.append(amount);
            out
        },
        None => {
            let mut out = amount.to_owned();
            out.append(" ");
            out.append(code);
            out
        },
    }
}

/// Each currency on offer is shown everywhere with the symbol that it is offered with.
pub proof fn law_symbols_are_those_on_offer(i: int)
    requires
        0 <= i < currency_table().len(),
    ensures
        symbol_of(currency_table()[i].0) == Some(currency_table()[i].1),
{
    reveal_strlit("CNY");
    reveal_strlit("USD");
    reveal_strlit("EUR");
    reveal_strlit("GBP");
    reveal_strlit("JPY");
    reveal_strlit("CAD");
    reveal_strlit("HKD");
    reveal_strlit("AUD");
    reveal_strlit("CHF");
    reveal_strlit("SGD");
    reveal_strlit("KRW");
    reveal_strlit("INR");
    let code = currency_table()[i].0;
    assert(code[0] == 'C' || code[0] == 'U' || code[0] == 'E' || code[0] == 'G' || code[0] == 'J'
        || code[0] == 'H' || code[0] == 'A' || code[0] == 'S' || code[0] == 'K' || code[0] == 'I');
    assert("CNY"@[1] == 'N' && "CAD"@[1] == 'A' && "CHF"@[1] == 'H');
}

/// No two currencies on offer have the same symbol.
pub proof fn law_symbols_are_distinct(i: int, j: int)
    requires
        0 <= i < j < currency_table().len(),
    ensures
        currency_table()[i].1 != currency_table()[j].1,
{
    reveal_strlit("¥");
    reveal_strlit("$");
    reveal_strlit("€");
    reveal_strlit("£");
    reveal_strlit("JP¥");
    reveal_strlit("C$");
    reveal_strlit("HK$");
    reveal_strlit("A$");
    reveal_strlit("CHF");
    reveal_strlit("S$");
    reveal_strlit("₩");
    reveal_strlit("₹");
    assert("C$"@.len() == 2 && "A$"@.len() == 2 && "S$"@.len() == 2);
    assert("C$"@[0] == 'C' && "A$"@[0] == 'A' && "S$"@[0] == 'S');
    assert("JP¥"@[0] == 'J' && "HK$"@[0] == 'H' && "CHF"@[0] == 'C');
    assert("¥"@[0] == '¥' && "$"@[0] == '$' && "€"@[0] == '€' && "£"@[0] == '£' && "₩"@[0] == '₩'
        && "₹"@[0] == '₹');
}

// ---------------------------------------------------------------------------
// What the tables promise
// ---------------------------------------------------------------------------

/// The names of the cycles differ.
pub proof fn lemma_cycle_names_differ()
    ensures
        "monthly"@.len() == 7,
        "quarterly"@.len() == 9 && "quarterly"@[0] == 'q',
        "semiannual"@.len() == 10,
        "yearly"@.len() == 6,
        "biennial"@.len() == 8,
        "triennial"@.len() == 9 && "triennial"@[0] == 't',
        "once"@.len() == 4 && "once"@[0] == 'o',
        "free"@.len() == 4 && "free"@[0] == 'f',
{
    reveal_strlit("monthly");
    reveal_strlit("quarterly");
    reveal_strlit("semiannual");
    reveal_strlit("yearly");
    reveal_strlit("biennial");
    reveal_strlit("triennial");
    reveal_strlit("once");
    reveal_strlit("free");
}

/// A price is for one month, three, six, twelve, twenty-four or thirty-six, by the name of its
/// cycle. No other name stands for a number of months.
pub proof fn law_cycles_have_their_months(cycle: Seq<char>)
    ensures
        cycle == "monthly"@ ==> months_of(cycle) == Some(1u32),
        cycle == "quarterly"@ ==> months_of(cycle) == Some(3u32),
        cycle == "semiannual"@ ==> months_of(cycle) == Some(6u32),
        cycle == "yearly"@ ==> months_of(cycle) == Some(12u32),
        cycle == "biennial"@ ==> months_of(cycle) == Some(24u32),
        cycle == "triennial"@ ==> months_of(cycle) == Some(36u32),
        months_of(cycle) is Some ==> cycle == "monthly"@ || cycle == "quarterly"@ || cycle
            == "semiannual"@ || cycle == "yearly"@ || cycle == "biennial"@ || cycle == "triennial"@,
{
    lemma_cycle_names_differ();
}

/// A price above zero costs something, and the same price with a minus sign does not; zero with
/// either sign does not; what is no number counts as a price.
pub proof fn law_only_prices_above_zero_cost(bits: u64)
    requires
        bits < 0x8000_0000_0000_0000,
    ensures
        not_positive(bits) <==> bits == 0,
        not_positive((bits + 0x8000_0000_0000_0000) as u64) <==> bits <= 0x7ff0_0000_0000_0000,
{
}

/// A node is free where its price is not above zero. The word for it in place of a cycle counts in
/// the reconciling edition alone, and there whatever the price says.
pub proof fn law_free_nodes(node: NodeView)
    ensures
        free(Edition::Importing, node) <==> not_positive(node.price),
        free(Edition::Reconciling, node) <==> node.billing_cycle == "free"@ || not_positive(
            node.price,
        ),
{
}

/// The cycles on offer are shown in Chinese under their own labels.
pub proof fn law_cycles_have_their_labels(edition: Edition, i: int)
    requires
        0 <= i < cycle_table(edition).len(),
    ensures
        cycle_table(edition).len() == (if edition == Edition::Importing {
            7int
        } else {
            8int
        }),
        cycle_table(edition)[i].0 == "monthly"@ ==> cycle_table(edition)[i].1 == "月付"@,
        cycle_table(edition)[i].0 == "quarterly"@ ==> cycle_table(edition)[i].1 == "季付"@,
        cycle_table(edition)[i].0 == "semiannual"@ ==> cycle_table(edition)[i].1 == "半年付"@,
        cycle_table(edition)[i].0 == "yearly"@ ==> cycle_table(edition)[i].1 == "年付"@,
        cycle_table(edition)[i].0 == "biennial"@ ==> cycle_table(edition)[i].1 == "两年付"@,
        cycle_table(edition)[i].0 == "triennial"@ ==> cycle_table(edition)[i].1 == "三年付"@,
        cycle_table(edition)[i].0 == "once"@ ==> cycle_table(edition)[i].1 == "一次性"@,
        cycle_table(edition)[i].0 == "free"@ ==> cycle_table(edition)[i].1 == "免费"@ && edition
            == Edition::Reconciling,
{
    lemma_cycle_names_differ();
}

/// A cycle is on offer once. The list goes from the shortest to the longest, with what is paid once
/// behind them.
pub proof fn law_cycles_are_offered_by_length(edition: Edition, i: int, j: int)
    requires
        0 <= i < j < cycle_table(edition).len(),
    ensures
        cycle_table(edition)[i].0 != cycle_table(edition)[j].0,
        months_of(cycle_table(edition)[j].0) matches Some(b) ==> (months_of(
            cycle_table(edition)[i].0,
        ) matches Some(a) && a < b),
{
    lemma_cycle_names_differ();
}

/// What the statistics recognise: the six paid cycles, what is paid once, and what is free.
pub proof fn law_recognised_cycles(cycle: Seq<char>)
    ensures
        recognised(cycle) <==> cycle == "monthly"@ || cycle == "quarterly"@ || cycle
            == "semiannual"@ || cycle == "yearly"@ || cycle == "biennial"@ || cycle == "triennial"@
            || cycle == "once"@ || cycle == "free"@,
{
}

proof fn lemma_codes_differ()
    ensures
        "CNY"@[0] == 'C' && "CNY"@[1] == 'N',
        "USD"@[0] == 'U',
        "EUR"@[0] == 'E',
        "GBP"@[0] == 'G',
        "JPY"@[0] == 'J',
        "CAD"@[0] == 'C' && "CAD"@[1] == 'A',
        "HKD"@[0] == 'H',
        "AUD"@[0] == 'A',
        "CHF"@[0] == 'C' && "CHF"@[1] == 'H',
        "SGD"@[0] == 'S',
        "KRW"@[0] == 'K',
        "INR"@[0] == 'I',
{
    reveal_strlit("CNY");
    reveal_strlit("USD");
    reveal_strlit("EUR");
    reveal_strlit("GBP");
    reveal_strlit("JPY");
    reveal_strlit("CAD");
    reveal_strlit("HKD");
    reveal_strlit("AUD");
    reveal_strlit("CHF");
    reveal_strlit("SGD");
    reveal_strlit("KRW");
    reveal_strlit("INR");
}

/// Amounts in each currency on offer carry its own symbol, and in any other the code.
pub proof fn law_amounts_carry_their_currency(code: Seq<char>, amount: Seq<char>)
    ensures
        code == "CNY"@ ==> amount_text(code, amount) == "¥"@ + amount && prefix_of(code) == "¥"@,
        code == "USD"@ ==> amount_text(code, amount) == "$"@ + amount && prefix_of(code) == "$"@,
        code == "EUR"@ ==> amount_text(code, amount) == "€"@ + amount && prefix_of(code) == "€"@,
        code == "GBP"@ ==> amount_text(code, amount) == "£"@ + amount && prefix_of(code) == "£"@,
        code == "JPY"@ ==> amount_text(code, amount) == "JP¥"@ + amount && prefix_of(code)
            == "JP¥"@,
        code == "CAD"@ ==> amount_text(code, amount) == "C$"@ + amount && prefix_of(code) == "C$"@,
        code == "HKD"@ ==> amount_text(code, amount) == "HK$"@ + amount && prefix_of(code)
            == "HK$"@,
        code == "AUD"@ ==> amount_text(code, amount) == "A$"@ + amount && prefix_of(code) == "A$"@,
        code == "CHF"@ ==> amount_text(code, amount) == "CHF"@ + amount && prefix_of(code)
            == "CHF"@,
        code == "SGD"@ ==> amount_text(code, amount) == "S$"@ + amount && prefix_of(code) == "S$"@,
        code == "KRW"@ ==> amount_text(code, amount) == "₩"@ + amount && prefix_of(code) == "₩"@,
        code == "INR"@ ==> amount_text(code, amount) == "₹"@ + amount && prefix_of(code) == "₹"@,
        (forall|i: int| 0 <= i < currency_table().len() ==> (#[trigger] currency_table()[i]).0
            != code) ==> amount_text(code, amount) == amount + " "@ + code && prefix_of(code)
            == code,
{
    lemma_codes_differ();
    let table = currency_table();
    assert(table[0].0 == "CNY"@ && table[1].0 == "USD"@ && table[2].0 == "EUR"@ && table[3].0
        == "GBP"@ && table[4].0 == "JPY"@ && table[5].0 == "CAD"@);
    assert(table[6].0 == "HKD"@ && table[7].0 == "AUD"@ && table[8].0 == "CHF"@ && table[9].0
        == "SGD"@ && table[10].0 == "KRW"@ && table[11].0 == "INR"@);
}

/// The currencies on offer, in their order.
pub proof fn law_the_currencies_on_offer()
    ensures
        currency_table().map_values(|p: (Seq<char>, Seq<char>)| p.0) == seq![
            "CNY"@,
            "USD"@,
            "EUR"@,
            "GBP"@,
            "JPY"@,
            "CAD"@,
            "HKD"@,
            "AUD"@,
            "CHF"@,
            "SGD"@,
            "KRW"@,
            "INR"@,
        ],
{
}

/// Twelve currencies are on offer, each once, the yuan first.
pub proof fn law_currencies_are_offered_once(i: int, j: int)
    requires
        0 <= i < j < currency_table().len(),
    ensures
        currency_table().len() == 12,
        currency_table()[0].0 == "CNY"@,
        currency_table()[i].0 != currency_table()[j].0,
{
    lemma_codes_differ();
}

} // verus!
