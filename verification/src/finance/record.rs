//! What the plugin keeps: a record for each node, its settings, and the exchange rates.
use vstd::prelude::*;

use crate::calendar::{date_of_day, date_of_seconds, date_text, day_of_second, in_calendar, Date};
use crate::heap::{setting_in, setting_text};
use crate::text::{
    chars_of, digits, i64_value, int_digits, is_blank, is_digit, law_decimal_digits,
    law_decimal_round_trip, law_trimming_takes_blanks_away, opt_text, parse_i64, push_int, same,
    text_between, trim, trimmed,
};

verus! {

/// The two editions of the plugin. The importing one takes the host's nodes over once; the
/// reconciling one aligns its records with them again and again.
#[derive(Debug, Clone, Copy, PartialEq, Eq, Structural)]
pub enum Edition {
    Importing,
    Reconciling,
}

/// What is known of the cost of a node. The price stands as the bits of its IEEE 754 double.
#[derive(Debug)]
pub struct NodeFin {
    pub name: String,
    pub price: u64,
    pub currency: String,
    pub billing_cycle: String,
    pub expires_at: Option<String>,
    /// The day on which a node paid once was bought.
    pub purchased_at: Option<String>,
    /// When the host created the node that this record is about.
    pub host_created_at: Option<i64>,
    /// The number of days that were left when the node's expiry was last announced.
    pub last_notified: Option<i64>,
}

/// A record in the abstract.
pub ghost struct NodeView {
    pub name: Seq<char>,
    pub price: u64,
    pub currency: Seq<char>,
    pub billing_cycle: Seq<char>,
    pub expires_at: Option<Seq<char>>,
    pub purchased_at: Option<Seq<char>>,
    pub host_created_at: Option<i64>,
    pub last_notified: Option<i64>,
}

impl View for NodeFin {
    type V = NodeView;

    open spec fn view(&self) -> NodeView {
        NodeView {
            name: self.name@,
            price: self.price,
            currency: self.currency@,
            billing_cycle: self.billing_cycle@,
            expires_at: opt_text(self.expires_at),
            purchased_at: opt_text(self.purchased_at),
            host_created_at: self.host_created_at,
            last_notified: self.last_notified,
        }
    }
}

/// A copy of an optional text.
pub fn copy_text(s: &Option<String>) -> (r: Option<String>)
    ensures
        r == *s,
{
    match s {
        Some(t) => Some(t.clone()),
        None => None,
    }
}

impl NodeFin {
    /// A copy of the record.
    pub fn copy(&self) -> (r: NodeFin)
        ensures
            r == *self,
    {
        NodeFin {
            name: self.name.clone(),
            price: self.price,
            currency: self.currency.clone(),
            billing_cycle: self.billing_cycle.clone(),
            expires_at: copy_text(&self.expires_at),
            purchased_at: copy_text(&self.purchased_at),
            host_created_at: self.host_created_at,
            last_notified: self.last_notified,
        }
    }
}

/// Records with their ids, in the abstract.
pub open spec fn nodes_view(nodes: Seq<(i64, NodeFin)>) -> Seq<(i64, NodeView)> {
    nodes.map_values(|n: (i64, NodeFin)| (n.0, n.1@))
}

/// Exchange rates: one unit of `base` is worth so much of each other currency. A rate stands as
/// the bits of its IEEE 754 double.
#[derive(Debug)]
pub struct Fx {
    pub base: String,
    pub rates: Vec<(String, u64)>,
    pub fetched_at: i64,
}

/// Why the rates could not be fetched, and when that was.
#[derive(Debug)]
pub struct FxStatus {
    pub reason: String,
    pub attempted_at: i64,
}

/// The plugin's settings.
#[derive(Debug)]
pub struct Config {
    pub target_currency: String,
    pub threshold_days: i64,
    /// Whether the host's nodes were taken over.
    pub imported: bool,
}

/// The currency of the totals where none is chosen.
pub fn default_target() -> (r: String)
    ensures
        r@ == "CNY"@,
{
    "CNY".to_owned()
}

/// The days before an expiry from which it is announced, where none are chosen.
pub fn default_threshold() -> (r: i64)
    ensures
        r == 7,
{
    7
}

/// The threshold that a setting gives: a positive number, with blanks around it.
pub open spec fn threshold_of(setting: Option<Seq<char>>) -> Option<i64> {
    match setting {
        Some(s) => match i64_value(trimmed(s)) {
            Some(d) => if d > 0 {
                Some(d)
            } else {
                None
            },
            None => None,
        },
        None => None,
    }
}

/// The size of a buffer for the setting: one byte more than the longest that is read.
pub const SETTING_ROOM: usize = 257;

/// The threshold that the panel's setting gives, as the host wrote it into a buffer. What is no
/// positive number counts as not set, and so does what the host may have cut.
pub fn threshold_from_kv(count: i32, buffer: &[u8]) -> (r: Option<i64>)
    requires
        count <= buffer@.len(),
    ensures
        r == threshold_of(setting_in(count as int, buffer@)),
{
    match setting_text(count, buffer) {
        Some(s) => {
            let inner = trim(s.as_str());
            match parse_i64(inner.as_str()) {
                Some(d) => if d > 0 {
                    Some(d)
                } else {
                    None
                },
                None => None,
            }
        },
        None => None,
    }
}

impl Config {
    /// The threshold in force: the panel's setting, or else the recorded one.
    pub open spec fn threshold(self, setting: Option<Seq<char>>) -> i64 {
        match threshold_of(setting) {
            Some(d) => d,
            None => self.threshold_days,
        }
    }

    /// The settings that were found, or those of a plugin that was never set up.
    pub fn load(found: Option<Config>) -> (r: Config)
        ensures
            found matches Some(c) ==> r == c,
            found is None ==> r.target_currency@ == "CNY"@ && r.threshold_days == 7 && !r.imported,
    {
        match found {
            Some(c) => c,
            None => Config {
                target_currency: default_target(),
                threshold_days: default_threshold(),
                imported: false,
            },
        }
    }

    /// The threshold in force: the panel's setting, or else the recorded one.
    pub fn threshold_days(&self, count: i32, buffer: &[u8]) -> (r: i64)
        requires
            count <= buffer@.len(),
        ensures
            r == self.threshold(setting_in(count as int, buffer@)),
    {
        match threshold_from_kv(count, buffer) {
            Some(d) => d,
            None => self.threshold_days,
        }
    }
}

/// A setting that fills its buffer is not set, whatever its bytes: half a number is never taken
/// for a threshold.
pub proof fn law_cut_settings_are_not_set(config: Config, buffer: Seq<u8>)
    ensures
        threshold_of(setting_in(buffer.len() as int, buffer)) is None,
        config.threshold(setting_in(buffer.len() as int, buffer)) == config.threshold_days,
{
}

/// A setting that is no positive number leaves the recorded threshold in force; one that is
/// replaces it.
pub proof fn law_threshold_falls_back(config: Config, setting: Option<Seq<char>>)
    ensures
        threshold_of(setting) is None ==> config.threshold(setting) == config.threshold_days,
        threshold_of(setting) matches Some(d) ==> d > 0 && config.threshold(setting) == d,
{
}

// ---------------------------------------------------------------------------
// Keys
// ---------------------------------------------------------------------------

/// The key of a node's record.
pub open spec fn key_of_node(id: int) -> Seq<char> {
    "node:"@ + int_digits(id)
}

/// The id of the node whose record a key is for.
pub open spec fn node_of_key(key: Seq<char>) -> Option<i64> {
    let prefix = "node:"@;
    if prefix.is_prefix_of(key) {
        i64_value(key.skip(prefix.len() as int))
    } else {
        None
    }
}

/// The key of a node's record.
pub fn node_key(id: i64) -> (r: String)
    ensures
        r@ == key_of_node(id as int),
{
    let mut out = "node:".to_owned();
    push_int(&mut out, id);
    out
}

/// The id of the node whose record a key is for.
pub fn node_id(key: &str) -> (r: Option<i64>)
    ensures
        r == node_of_key(key@),
{
    proof {
        reveal_strlit("node:");
    }
    let chars = chars_of(key);
    if chars.len() < 5 {
        return None;
    }
    let head = text_between(&chars, 0, 5);
    assert(head@ == key@.take(5));
    if !same(head.as_str(), "node:") {
        assert(!"node:"@.is_prefix_of(key@)) by {
            if "node:"@.is_prefix_of(key@) {
                assert(key@.take(5) == "node:"@);
            }
        }
        return None;
    }
    assert("node:"@.is_prefix_of(key@));
    let rest = text_between(&chars, 5, chars.len());
    assert(rest@ == key@.skip(5));
    parse_i64(rest.as_str())
}

/// A record's key gives back the id of its node, so that two nodes never share a key.
pub proof fn law_node_keys_are_distinct(a: i64, b: i64)
    ensures
        node_of_key(key_of_node(a as int)) == Some(a),
        key_of_node(a as int) == key_of_node(b as int) ==> a == b,
{
    lemma_node_key(a);
    lemma_node_key(b);
}

proof fn lemma_node_key(id: i64)
    ensures
        node_of_key(key_of_node(id as int)) == Some(id),
{
    crate::text::law_decimal_round_trip(id);
    let prefix = "node:"@;
    let key = key_of_node(id as int);
    assert(prefix.is_prefix_of(key));
    assert(key.skip(prefix.len() as int) == int_digits(id as int));
}

// ---------------------------------------------------------------------------
// Days
// ---------------------------------------------------------------------------

/// The day of a clock's reading; the first of 2026 for a reading outside of the calendar.
pub open spec fn day_at(secs: int) -> Date {
    if in_calendar(day_of_second(secs)) {
        date_of_day(day_of_second(secs))
    } else {
        Date { year: 2026, month: 1, day: 1 }
    }
}

/// The day of a clock's reading; the first of 2026 for a reading outside of the calendar.
pub fn today(secs: i64) -> (r: Date)
    ensures
        r == day_at(secs as int),
        r.valid(),
{
    match date_of_seconds(secs) {
        Some(d) => {
            proof {
                crate::calendar::law_date_of_day(d);
            }
            d
        },
        None => Date { year: 2026, month: 1, day: 1 },
    }
}

/// The date in an optional text.
pub open spec fn opt_date(s: Option<Seq<char>>) -> Option<Date> {
    match s {
        Some(t) => crate::calendar::date_of_text(t),
        None => None,
    }
}

/// The date in an optional text.
pub fn read_date(s: &Option<String>) -> (r: Option<Date>)
    ensures
        r == opt_date(opt_text(*s)),
        r matches Some(d) ==> d.valid(),
{
    match s {
        Some(t) => crate::calendar::parse_date(t.as_str()),
        None => None,
    }
}

// ---------------------------------------------------------------------------
// New records
// ---------------------------------------------------------------------------

/// The record of a node of which nothing is known yet.
pub open spec fn blank(
    edition: Edition,
    name: Seq<char>,
    created_at: Option<i64>,
    day: Date,
) -> NodeView {
    NodeView {
        name,
        price: 0,
        currency: "USD"@,
        billing_cycle: match edition {
            Edition::Importing => "monthly"@,
            Edition::Reconciling => "yearly"@,
        },
        expires_at: None,
        purchased_at: Some(day.text()),
        host_created_at: created_at,
        last_notified: None,
    }
}

/// The record of a node of which nothing is known yet.
pub fn blank_node(
    edition: Edition,
    name: String,
    created_at: Option<i64>,
    day: &Date,
) -> (r: NodeFin)
    requires
        day.valid(),
    ensures
        r@ == blank(edition, name@, created_at, *day),
{
    NodeFin {
        name,
        price: 0,
        currency: "USD".to_owned(),
        billing_cycle: match edition {
            Edition::Importing => "monthly".to_owned(),
            Edition::Reconciling => "yearly".to_owned(),
        },
        expires_at: None,
        purchased_at: Some(date_text(day)),
        host_created_at: created_at,
        last_notified: None,
    }
}

/// A row of the plugin's data: its key, and the record that its text holds, if it holds one.
#[derive(Debug)]
pub struct Row {
    pub key: String,
    pub node: Option<NodeFin>,
}

/// The records that rows hold under the keys of nodes, in the rows' order.
pub open spec fn records_in(rows: Seq<Row>) -> Seq<(i64, NodeView)>
    decreases rows.len(),
{
    if rows.len() == 0 {
        Seq::empty()
    } else {
        let before = records_in(rows.drop_last());
        match (node_of_key(rows.last().key@), rows.last().node) {
            (Some(id), Some(node)) => before.push((id, node@)),
            _ => before,
        }
    }
}

/// The records that rows hold under the keys of nodes, in the rows' order. Rows that cannot be
/// read are passed over.
pub fn all_nodes(rows: Vec<Row>) -> (r: Vec<(i64, NodeFin)>)
    ensures
        nodes_view(r@) == records_in(rows@),
{
    let mut out: Vec<(i64, NodeFin)> = Vec::new();
    let mut i: usize = 0;
    assert(nodes_view(out@) == records_in(rows@.take(0)));
    while i < rows.len()
        invariant
            i <= rows@.len(),
            nodes_view(out@) == records_in(rows@.take(i as int)),
        decreases rows@.len() - i,
    {
        let ghost before = nodes_view(out@);
        assert(rows@.take(i + 1).drop_last() == rows@.take(i as int));
        if let Some(id) = node_id(rows[i].key.as_str()) {
            if let Some(node) = &rows[i].node {
                out.push((id, node.copy()));
                assert(nodes_view(out@) == before.push((id, node@)));
            }
        }
        i += 1;
    }
    assert(rows@.take(i as int) == rows@);
    out
}

// ---------------------------------------------------------------------------
// What records promise
// ---------------------------------------------------------------------------

/// A positive number is a threshold, whatever blanks stand around it; zero and negative numbers are
/// none.
pub proof fn law_thresholds_are_positive(before: Seq<char>, n: i64, behind: Seq<char>)
    requires
        is_blank(before),
        is_blank(behind),
    ensures
        threshold_of(Some(before + int_digits(n as int) + behind)) == if n > 0 {
            Some(n)
        } else {
            None
        },
        threshold_of(None) is None,
{
    law_decimal_round_trip(n);
    let s = int_digits(n as int);
    let size = if n < 0 {
        (-n) as nat
    } else {
        n as nat
    };
    if size > 0 {
        law_decimal_digits(size, 0);
        let d = digits(size);
        assert(is_digit(d[0]) && is_digit(d[d.len() - 1]));
        assert(s.last() == d.last());
    }
    law_trimming_takes_blanks_away(before, s, behind);
}

/// A setting that is no number at all is no threshold.
pub proof fn law_what_is_no_threshold(s: Seq<char>)
    ensures
        i64_value(trimmed(s)) is None ==> threshold_of(Some(s)) is None,
        i64_value(trimmed(s)) matches Some(n) ==> threshold_of(Some(s)) == if n > 0 {
            Some(n)
        } else {
            None
        },
{
}

/// A key that does not begin as the keys of records do is for no record, and so is one that goes on
/// with anything but an id.
pub proof fn law_other_keys_are_for_no_record(key: Seq<char>)
    ensures
        node_of_key(key) matches Some(id) ==> key.len() > 5 && key.take(5) == "node:"@ && i64_value(
            key.skip(5),
        ) == Some(id),
{
    reveal_strlit("node:");
    if "node:"@.is_prefix_of(key) {
        assert(key.take(5) == "node:"@);
        crate::text::law_what_is_no_number(key.skip(5));
    }
}

/// A clock's reading falls on the day whose seconds it is among, counted from 1970 in UTC. A
/// reading outside of the calendar counts as the first of January 2026.
pub proof fn law_the_day_of_a_reading(d: Date, secs: int)
    requires
        d.valid(),
    ensures
        0 <= secs - 86400 * (d.number() - 719163) < 86400 ==> day_at(secs) == d,
        !in_calendar(719163 + secs / 86400) ==> day_at(secs) == (Date {
            year: 2026,
            month: 1,
            day: 1,
        }),
{
    let rest = secs - 86400 * (d.number() - 719163);
    if 0 <= rest < 86400 {
        assert(secs / 86400 == d.number() - 719163) by (nonlinear_arith)
            requires
                secs == 86400 * (d.number() - 719163) + rest,
                0 <= rest < 86400,
        ;
        crate::calendar::law_dates_lie_in_the_calendar(d);
        crate::calendar::law_date_of_day(d);
    }
}

/// The record of a new node has its name and when the host created it, costs nothing, is counted
/// in dollars, was bought on the day, and expires at no known date. It is paid by the year in the
/// reconciling edition, and by the month in the importing one.
pub proof fn law_blank_records(
    edition: Edition,
    name: Seq<char>,
    created_at: Option<i64>,
    day: Date,
)
    ensures
        ({
            let node = blank(edition, name, created_at, day);
            &&& node.name == name
            &&& node.price == 0
            &&& node.currency == "USD"@
            &&& node.expires_at is None
            &&& node.purchased_at == Some(day.text())
            &&& node.host_created_at == created_at
            &&& node.last_notified is None
            &&& edition == Edition::Reconciling ==> node.billing_cycle == "yearly"@
            &&& edition == Edition::Importing ==> node.billing_cycle == "monthly"@
        }),
{
}

/// The records are those of the rows that have the key of a node and can be read, each once, in the
/// order of the rows.
pub proof fn law_records_are_those_of_the_rows(before: Seq<Row>, row: Row, behind: Seq<Row>)
    ensures
        records_in(before.push(row) + behind) == records_in(before) + (match (
            node_of_key(row.key@),
            row.node,
        ) {
            (Some(id), Some(node)) => seq![(id, node@)],
            _ => Seq::empty(),
        }) + records_in(behind),
        records_in(Seq::empty()).len() == 0,
    decreases behind.len(),
{
    let all = before.push(row) + behind;
    if behind.len() == 0 {
        assert(all == before.push(row));
        assert(all.drop_last() == before);
    } else {
        law_records_are_those_of_the_rows(before, row, behind.drop_last());
        assert(all.drop_last() == before.push(row) + behind.drop_last());
        assert(all.last() == behind.last());
    }
}

} // verus!
