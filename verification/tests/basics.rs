//! Texts, templates, dates, prices and memory, one function at a time.

use monitor_plugins::finance::action::{apply_edit, read_request, Edit, Request};
use monitor_plugins::finance::billing::{
    currencies, currency_prefix, currency_symbol, cycle_months, cycles, is_free, money,
};
use monitor_plugins::finance::effect::Effect;
use monitor_plugins::finance::event::{handle_node_event, NodeEvent};
use monitor_plugins::finance::expiry::{check_node, roll_if_online};
use monitor_plugins::finance::rates::{
    clear_fx_failure, fmt_ts, http_error_reason, refresh_fx, refresh_fx_failure_toast, take_rates,
};
use monitor_plugins::finance::record::{
    blank_node, default_target, default_threshold, node_id, node_key, threshold_from_kv, today,
    SETTING_ROOM,
    Config, Edition, Fx, FxStatus, NodeFin,
};
use monitor_plugins::finance::roster::{reconcile_with, HostNode};
use monitor_plugins::finance::stats::{
    annual_cost, convert, remaining_value, totals, Amount, Conversion,
};
use monitor_plugins::finance::takeover::{
    data_rows, ensure_imported, host_entries, nodes_basic, online_nodes, HostEntry,
};
use monitor_plugins::calendar::Date;
use monitor_plugins::heap::{
    bytes_to_string, input_span, reply_code, reply_text, setting_text, write_bytes, write_str, Heap,
    Layout,
};
use monitor_plugins::json::{text, with_toast, Fields, Json};
use monitor_plugins::template::{escape_html, substitute};
use monitor_plugins::text::{int_text, join, parse_i64, place, precedes, space, trim};

fn date(year: i32, month: u32, day: u32) -> Date {
    Date { year, month, day }
}

fn node(price: f64, currency: &str, cycle: &str, expires: Option<&str>) -> NodeFin {
    NodeFin {
        name: "edge".to_string(),
        price: price.to_bits(),
        currency: currency.to_string(),
        billing_cycle: cycle.to_string(),
        expires_at: expires.map(str::to_string),
        purchased_at: None,
        host_created_at: None,
        last_notified: None,
    }
}

// ---------------------------------------------------------------------------
// Texts and templates
// ---------------------------------------------------------------------------

#[test]
fn blanks_are_those_of_the_standard_library() {
    for n in 0..=0x10ffff {
        if let Some(c) = char::from_u32(n) {
            assert_eq!(space(c), c.is_whitespace(), "{n:x}");
        }
    }
    for t in ["", "  ", " a b ", "\u{3000}x\n", "plain"] {
        assert_eq!(trim(t), t.trim());
    }
}

#[test]
fn integers_are_read_and_written_as_the_standard_library_does() {
    for n in [0, 7, -7, 10, 1_000_000, i64::MAX, i64::MIN] {
        assert_eq!(int_text(n), n.to_string());
        assert_eq!(parse_i64(&int_text(n)), Some(n));
    }
    for t in [
        "", "+", "-", "+5", "-0", "007", " 5", "5 ", "1.0", "9223372036854775807",
        "9223372036854775808", "-9223372036854775808", "-9223372036854775809", "٣", "--1",
        "99999999999999999999999",
    ] {
        assert_eq!(parse_i64(t), t.parse::<i64>().ok(), "{t}");
    }
}

#[test]
fn texts_are_ordered_as_the_standard_library_orders_them() {
    let texts = ["", "A", "AB", "B", "a", "é", "ü", "中", "\u{10000}"];
    for a in texts {
        for b in texts {
            assert_eq!(precedes(a, b), a < b, "{a} {b}");
        }
    }
    let mut list: Vec<String> = Vec::new();
    for t in ["USD", "EUR", "USD", "CNY", "EUR", "XXX"] {
        place(&mut list, t);
    }
    assert_eq!(list, ["CNY", "EUR", "USD", "XXX"]);
    assert_eq!(join(&list, "、"), "CNY、EUR、USD、XXX");
    assert_eq!(join(&Vec::new(), "、"), "");
}

#[test]
fn templates_take_known_names_and_report_others() {
    let vars = [("name".to_string(), "n".to_string()), ("x".to_string(), "{name}".to_string())];
    assert_eq!(substitute("a {name} b", &vars), ("a n b".to_string(), vec![]));
    assert_eq!(substitute("{x}", &vars), ("{name}".to_string(), vec![]));
    assert_eq!(
        substitute("{nope} {name}", &vars),
        ("{nope} n".to_string(), vec!["nope".to_string()])
    );
    assert_eq!(substitute("open {name", &vars), ("open {name".to_string(), vec![]));
    assert_eq!(substitute("plain", &vars), ("plain".to_string(), vec![]));
}

#[test]
fn markup_is_escaped() {
    assert_eq!(escape_html("<a href=\"x\">&</a>"), "&lt;a href=&quot;x&quot;&gt;&amp;&lt;/a&gt;");
    assert_eq!(escape_html("节点"), "节点");
}

// ---------------------------------------------------------------------------
// Settings, keys, days
// ---------------------------------------------------------------------------

/// A buffer of some size after the host wrote a value to it, and the number of bytes that fit.
fn written(value: &[u8], size: usize) -> (i32, Vec<u8>) {
    let mut buffer = vec![0u8; size];
    let count = value.len().min(size);
    buffer[..count].copy_from_slice(&value[..count]);
    (count as i32, buffer)
}

#[test]
fn settings_are_read_whole_or_not_at_all() {
    let (count, buffer) = written("密钥".as_bytes(), 7);
    assert_eq!(setting_text(count, &buffer), Some("密钥".to_string()));
    let (count, buffer) = written("密钥".as_bytes(), 6);
    assert_eq!(setting_text(count, &buffer), None);
    assert_eq!(setting_text(3, b"12\xff0"), None);
    assert_eq!(setting_text(2, b"12\xff0"), Some("12".to_string()));
    assert_eq!(setting_text(0, b"12"), None);
    assert_eq!(setting_text(-2, b"12"), None);
    let long = "0".repeat(255) + "79";
    for size in [256, SETTING_ROOM] {
        let (count, buffer) = written(long.as_bytes(), size);
        assert_eq!(threshold_from_kv(count, &buffer), None);
    }
    let (count, buffer) = written(long[1..].as_bytes(), SETTING_ROOM);
    assert_eq!(threshold_from_kv(count, &buffer), Some(79));
    let (count, buffer) = written(b"\xff7", SETTING_ROOM);
    assert_eq!(threshold_from_kv(count, &buffer), None);
}

#[test]
fn thresholds_are_positive_or_not_set() {
    let from_kv = |text: &str| {
        let (count, buffer) = written(text.as_bytes(), SETTING_ROOM);
        threshold_from_kv(count, &buffer)
    };
    assert_eq!(from_kv(" 14\n"), Some(14));
    assert_eq!(from_kv("+3"), Some(3));
    for wrong in ["0", "-3", "", "x", "7.0", "99999999999999999999"] {
        assert_eq!(from_kv(wrong), None, "{wrong}");
    }
    assert_eq!(threshold_from_kv(-1, &[0; 8]), None);
    let config = Config { target_currency: default_target(), threshold_days: 5, imported: false };
    assert_eq!(config.threshold_days(1, b"9 "), 9);
    assert_eq!(config.threshold_days(1, b"0 "), 5);
    assert_eq!(default_threshold(), 7);
    let fresh = Config::load(None);
    assert_eq!((fresh.target_currency.as_str(), fresh.threshold_days, fresh.imported), ("CNY", 7, false));
}

#[test]
fn keys_give_back_their_ids() {
    for id in [0, 1, 42, -3, i64::MAX, i64::MIN] {
        assert_eq!(node_key(id), format!("node:{id}"));
        assert_eq!(node_id(&node_key(id)), Some(id));
    }
    assert_eq!(node_id("node:+1"), Some(1));
    for wrong in ["node:", "node:x", "nodes:1", "1", "config", "node: 1"] {
        assert_eq!(node_id(wrong), None, "{wrong}");
    }
}

#[test]
fn days_follow_the_clock() {
    assert_eq!(today(0), date(1970, 1, 1));
    assert_eq!(today(-1), date(1969, 12, 31));
    assert_eq!(today(1_800_000_000), date(2027, 1, 15));
    assert_eq!(today(951_782_400), date(2000, 2, 29));
    assert_eq!(today(i64::MAX), date(2026, 1, 1));
}

#[test]
fn blank_records_differ_by_edition() {
    let day = date(2027, 1, 15);
    let old = blank_node(Edition::Importing, "a".to_string(), None, &day);
    assert_eq!(old.billing_cycle, "monthly");
    let new = blank_node(Edition::Reconciling, "b".to_string(), Some(5), &day);
    assert_eq!(new.billing_cycle, "yearly");
    assert_eq!(new.host_created_at, Some(5));
    assert_eq!(new.currency, "USD");
    assert_eq!(f64::from_bits(new.price), 0.0);
    assert_eq!(new.purchased_at.unwrap(), "2027-01-15");
    assert_eq!(new.expires_at, None);
    let far = blank_node(Edition::Reconciling, "c".to_string(), None, &date(-5, 3, 9));
    assert_eq!(far.purchased_at.unwrap(), "-0005-03-09");
    let far = blank_node(Edition::Reconciling, "c".to_string(), None, &date(12345, 11, 30));
    assert_eq!(far.purchased_at.unwrap(), "+12345-11-30");
}

// ---------------------------------------------------------------------------
// Cycles, currencies, totals
// ---------------------------------------------------------------------------

#[test]
fn cycles_and_their_months() {
    let months: Vec<Option<u32>> =
        cycles(Edition::Reconciling).iter().map(|(name, _)| cycle_months(name)).collect();
    assert_eq!(
        months,
        [Some(1), Some(3), Some(6), Some(12), Some(24), Some(36), None, None]
    );
    assert_eq!(cycles(Edition::Importing).len(), 7);
    assert_eq!(cycle_months("montly"), None);
}

#[test]
fn currencies_and_their_symbols() {
    for (code, symbol) in currencies() {
        assert_eq!(currency_symbol(&code), Some(symbol.as_str()));
        assert_eq!(currency_prefix(&code), symbol);
        assert_eq!(money(&code, "1.50"), format!("{symbol}1.50"));
    }
    assert_eq!(currencies().len(), 12);
    assert_eq!(currency_symbol("JPY"), Some("JP¥"));
    assert_eq!(currency_symbol("PLN"), None);
    assert_eq!(currency_prefix("PLN"), "PLN");
    assert_eq!(money("PLN", "1.50"), "1.50 PLN");
}

#[test]
fn free_is_what_costs_nothing() {
    for price in [0.0, -0.0, -1.5, f64::NEG_INFINITY, f64::MIN_POSITIVE, 3.0, f64::NAN, f64::INFINITY] {
        let n = node(price, "USD", "monthly", None);
        assert_eq!(is_free(Edition::Importing, &n), price <= 0.0, "{price}");
        assert_eq!(is_free(Edition::Reconciling, &n), price <= 0.0, "{price}");
    }
    let n = node(9.0, "USD", "free", None);
    assert!(is_free(Edition::Reconciling, &n));
    assert!(!is_free(Edition::Importing, &n));
}

#[test]
fn costs_and_what_is_left_of_them() {
    let day = date(2027, 1, 15);
    let edition = Edition::Reconciling;
    let price = 10.0f64.to_bits();
    assert_eq!(
        annual_cost(edition, &node(10.0, "USD", "quarterly", None)),
        Some(Amount::Yearly { price, months: 3 })
    );
    assert_eq!(annual_cost(edition, &node(10.0, "USD", "once", None)), None);
    assert_eq!(annual_cost(edition, &node(0.0, "USD", "monthly", None)), None);

    let left = |cycle: &str, expires: &str| {
        remaining_value(edition, &node(10.0, "USD", cycle, Some(expires)), &day)
    };
    assert_eq!(left("monthly", "2027-01-30"), Some(Amount::Prorated { price, days: 15, span: 30 }));
    assert_eq!(left("monthly", "2028-01-30"), Some(Amount::Prorated { price, days: 30, span: 30 }));
    assert_eq!(left("monthly", "2027-01-15"), Some(Amount::Zero));
    assert_eq!(left("monthly", "2026-01-15"), Some(Amount::Zero));
    assert_eq!(left("monthly", "soon"), None);
    assert_eq!(left("once", ""), None);
    assert_eq!(left("free", "soon"), None);
    assert_eq!(left("once", "2027-01-30"), Some(Amount::Zero));
    assert_eq!(left("free", "2027-01-30"), None);
    assert_eq!(
        remaining_value(edition, &node(10.0, "USD", "monthly", None), &day),
        Some(Amount::Zero)
    );
    assert_eq!(remaining_value(edition, &node(10.0, "USD", "free", None), &day), None);

    let mut once = node(10.0, "USD", "once", Some("2027-01-30"));
    once.purchased_at = Some("2027-01-10".to_string());
    assert_eq!(remaining_value(edition, &once, &day), Some(Amount::Prorated { price, days: 15, span: 20 }));
    once.purchased_at = Some("2027-02-10".to_string());
    assert_eq!(remaining_value(edition, &once, &day), Some(Amount::Prorated { price, days: 1, span: 1 }));
}

#[test]
fn amounts_are_converted_by_their_rates() {
    let half = 0.5f64.to_bits();
    let fx = Fx {
        base: "CNY".to_string(),
        rates: vec![
            ("USD".to_string(), half),
            ("EUR".to_string(), 0.0f64.to_bits()),
            ("GBP".to_string(), (-0.0f64).to_bits()),
        ],
        fetched_at: 0,
    };
    assert_eq!(convert(&fx, "CNY"), Some(Conversion::Same));
    assert_eq!(convert(&fx, "USD"), Some(Conversion::DivideBy { rate: half }));
    assert_eq!(convert(&fx, "EUR"), None);
    assert_eq!(convert(&fx, "GBP"), None);
    assert_eq!(convert(&fx, "JPY"), None);

    let nodes = vec![
        (1, node(1.0, "USD", "monthly", Some("2027-01-16"))),
        (2, node(2.0, "JPY", "monthly", Some("2027-01-16"))),
        (3, node(3.0, "EUR", "yearly", None)),
        (4, node(0.0, "KRW", "yearly", None)),
    ];
    let parts = totals(Edition::Reconciling, &fx, &nodes, &date(2027, 1, 15));
    assert_eq!(parts.annual.len(), 1);
    assert_eq!(parts.remaining.len(), 1);
    assert_eq!(parts.missing, ["EUR", "JPY"]);
}

// ---------------------------------------------------------------------------
// Records and the host's nodes
// ---------------------------------------------------------------------------

#[test]
fn aligning_twice_changes_nothing_more() {
    let day = date(2027, 1, 15);
    let host = vec![
        HostNode { id: 2, name: "b".to_string(), online: true, created_at: Some(20) },
        HostNode { id: 1, name: "a".to_string(), online: true, created_at: None },
    ];
    let (nodes, effects) = reconcile_with(&host, vec![(3, node(1.0, "USD", "monthly", None))], &day);
    assert_eq!(nodes.iter().map(|n| n.0).collect::<Vec<i64>>(), [2, 1]);
    assert_eq!(effects.len(), 3);
    assert!(matches!(effects[0], Effect::SaveNode { id: 2, .. }));
    assert!(matches!(effects[1], Effect::SaveNode { id: 1, .. }));
    assert!(matches!(effects[2], Effect::DeleteNode { id: 3 }));
    let (again, effects) = reconcile_with(&host, nodes, &date(2028, 2, 29));
    assert_eq!(again.len(), 2);
    assert!(effects.is_empty());
}

#[test]
fn taking_over_skips_what_is_known_or_unnamed() {
    let day = date(2027, 1, 15);
    let entry = |id: Option<i64>, name: Option<&str>, online: bool| HostEntry {
        id,
        name: name.map(str::to_string),
        online,
    };
    let entries = vec![
        entry(Some(1), Some("a"), true),
        entry(Some(2), Some("b"), false),
        entry(None, Some("c"), true),
        entry(Some(4), None, true),
    ];
    assert_eq!(nodes_basic(&entries), [(1, "a".to_string()), (2, "b".to_string())]);
    assert_eq!(online_nodes(&entries), [1, 4]);
    let known = vec![(1, node(1.0, "USD", "monthly", None))];
    let (config, effects) = ensure_imported(Config::load(None), &known, &None, &day);
    assert!(!config.imported);
    assert!(effects.is_empty());
    let entries = Some(entries);
    let (config, effects) = ensure_imported(config, &known, &entries, &day);
    assert!(config.imported);
    assert_eq!(effects.len(), 2);
    assert!(matches!(effects[0], Effect::SaveNode { id: 2, .. }));
    assert!(matches!(effects[1], Effect::SaveConfig(_)));
    let (_, effects) = ensure_imported(config, &known, &entries, &day);
    assert!(effects.is_empty());
}

#[test]
fn the_answer_of_the_host_is_read_as_far_as_it_goes() {
    let body = r#"[{"id":1,"name":"a","online":true},{"id":"2","name":"b"},{"id":3,"online":1},
                   7,{"id":4,"name":"d","online":false}]"#;
    let entries = host_entries(9, body).unwrap();
    assert_eq!(entries.len(), 5);
    assert_eq!(nodes_basic(&entries), [(1, "a".to_string()), (4, "d".to_string())]);
    assert_eq!(online_nodes(&entries), [1]);
    assert_eq!(host_entries(2, "[]").map(|list| list.len()), Some(0));
    assert!(host_entries(0, body).is_none());
    assert!(host_entries(-1, body).is_none());
    assert!(host_entries(9, r#"{"id":1}"#).is_none());
    assert!(host_entries(9, r#"[{"id":1"#).is_none());
}

#[test]
fn rows_need_a_key_and_data() {
    let rows = data_rows(r#"[{"key":"node:1","data":"x"},{"key":"node:2"},{"data":"y"},{"key":3,"data":"z"}]"#);
    assert_eq!(rows, [("node:1".to_string(), "x".to_string())]);
    assert!(data_rows("oops").is_empty());
}

#[test]
fn expiry_dates_roll_to_the_first_day_that_is_not_past() {
    let day = date(2027, 3, 1);
    let online = vec![1];
    let roll = |cycle: &str, expires: &str, id: i64| {
        let mut n = node(1.0, "USD", cycle, Some(expires));
        n.last_notified = Some(3);
        let rolled = roll_if_online(id, &mut n, &online, &day);
        (rolled, n.expires_at.unwrap(), n.last_notified)
    };
    assert_eq!(roll("monthly", "2027-02-28", 1), (true, "2027-03-28".to_string(), None));
    assert_eq!(roll("monthly", "2027-01-31", 1), (true, "2027-03-28".to_string(), None));
    assert_eq!(roll("yearly", "2024-02-29", 1), (true, "2028-02-28".to_string(), None));
    assert_eq!(roll("monthly", "2027-03-01", 1), (false, "2027-03-01".to_string(), Some(3)));
    assert_eq!(roll("monthly", "2027-02-28", 2), (false, "2027-02-28".to_string(), Some(3)));
    assert_eq!(roll("once", "2027-02-28", 1), (false, "2027-02-28".to_string(), Some(3)));
    assert_eq!(roll("monthly", "tomorrow", 1), (false, "tomorrow".to_string(), Some(3)));
}

#[test]
fn a_date_at_the_end_of_the_calendar_stays() {
    let day = date(262142, 12, 31);
    let mut n = node(1.0, "USD", "triennial", Some("+262142-01-01"));
    assert!(!roll_if_online(1, &mut n, &vec![1], &day));
    assert_eq!(n.expires_at.unwrap(), "+262142-01-01");
}

#[test]
fn dates_outside_of_four_digit_years_are_read_back() {
    let online = vec![1];
    let mut n = node(1.0, "USD", "monthly", Some("9999-12-31"));
    let day = date(10000, 1, 15);
    assert!(roll_if_online(1, &mut n, &online, &day));
    assert_eq!(n.expires_at.as_deref(), Some("+10000-01-31"));
    assert!(!roll_if_online(1, &mut n, &online, &day));
    assert_eq!(check_node(Edition::Importing, 1, n, &online, &day, 16).len(), 1);

    let mut n = node(1.0, "USD", "monthly", Some("-0002-12-31"));
    let day = date(-1, 2, 10);
    assert!(roll_if_online(1, &mut n, &online, &day));
    assert_eq!(n.expires_at.as_deref(), Some("-0001-02-28"));
    assert!(!roll_if_online(1, &mut n, &online, &day));
    assert_eq!(check_node(Edition::Importing, 1, n, &online, &day, 18).len(), 1);
}

#[test]
fn stamps_are_those_of_chrono() {
    for secs in [0, -1, 59, 60, 1_800_000_000, 253_402_300_800, -62_198_755_200, -70_000_000_000] {
        let expected = chrono::DateTime::from_timestamp(secs, 0).unwrap();
        assert_eq!(fmt_ts(secs), expected.format("%Y-%m-%d %H:%M UTC").to_string());
    }
    assert_eq!(fmt_ts(253_402_300_800), "+10000-01-01 00:00 UTC");
    for secs in [8_210_266_876_799, 8_210_266_876_800, -8_334_601_228_800, -8_334_601_228_801] {
        let known = chrono::DateTime::from_timestamp(secs, 0).is_some();
        assert_eq!(fmt_ts(secs).is_empty(), !known, "{secs}");
    }
    assert!(!fmt_ts(8_210_266_876_799).is_empty());
    assert!(fmt_ts(8_210_266_876_800).is_empty());
    assert!(!fmt_ts(-8_334_601_228_800).is_empty());
    assert!(fmt_ts(-8_334_601_228_801).is_empty());
}

#[test]
fn notices_keep_to_their_window() {
    let day = date(2027, 1, 15);
    let check = |edition: Edition, expires: &str, last: Option<i64>| {
        let mut n = node(1.0, "USD", "monthly", Some(expires));
        n.last_notified = last;
        check_node(edition, 1, n, &Vec::new(), &day, 7).len()
    };
    assert_eq!(check(Edition::Reconciling, "2027-01-22", None), 2);
    assert_eq!(check(Edition::Reconciling, "2027-01-22", Some(7)), 0);
    assert_eq!(check(Edition::Reconciling, "2027-01-22", Some(6)), 2);
    assert_eq!(check(Edition::Reconciling, "2027-01-16", None), 2);
    assert_eq!(check(Edition::Reconciling, "2027-01-15", None), 0);
    assert_eq!(check(Edition::Reconciling, "2027-01-23", None), 0);
    assert_eq!(check(Edition::Importing, "2027-01-22", None), 1);
    assert_eq!(check(Edition::Importing, "2027-01-21", None), 0);
}

#[test]
fn events_about_other_nodes_change_nothing() {
    let day = date(2027, 1, 15);
    let mut stored = node(5.0, "USD", "monthly", None);
    stored.host_created_at = Some(50);
    let stored = Some(stored);
    let added = |created: Option<i64>| NodeEvent::Added { node_id: 1, name: "n".to_string(), created_at: created };
    assert_eq!(handle_node_event(added(Some(50)), &stored, &day).len(), 0);
    assert_eq!(handle_node_event(added(Some(51)), &stored, &day).len(), 1);
    assert_eq!(handle_node_event(added(None), &None, &day).len(), 1);
    assert_eq!(handle_node_event(added(Some(1)), &None, &day).len(), 1);
    let deleted = |created: Option<i64>| NodeEvent::Deleted { node_id: 1, created_at: created };
    assert_eq!(handle_node_event(deleted(Some(50)), &stored, &day).len(), 1);
    assert_eq!(handle_node_event(deleted(Some(49)), &stored, &day).len(), 0);
    assert_eq!(handle_node_event(deleted(None), &None, &day).len(), 0);
}

// ---------------------------------------------------------------------------
// Rates and requests
// ---------------------------------------------------------------------------

#[test]
fn codes_have_their_reasons() {
    let expected = [
        (-1, "宿主侧读写失败（参数越界/非 UTF-8 或写回失败）"),
        (-2, "目标地址不是 https，宿主拒绝"),
        (-4, "网络请求失败或超时"),
        (-5, "汇率服务返回非 2xx 响应"),
        (-9, "目标地址解析到私有/保留网段，宿主拒绝"),
        (0, "汇率服务返回了空响应"),
        (-3, "宿主返回错误码 -3"),
        (i32::MIN, "宿主返回错误码 -2147483648"),
    ];
    for (code, reason) in expected {
        assert_eq!(http_error_reason(code), reason);
    }
}

#[test]
fn replies_become_rates_or_reasons() {
    let (ok, effects) = refresh_fx(Edition::Reconciling, "CNY", 40, r#"{"rates":{"USD":0.25,"EUR":2}}"#, 99);
    assert!(ok);
    match &effects[0] {
        Effect::SaveFx(fx) => {
            assert_eq!(fx.base, "CNY");
            assert_eq!(fx.fetched_at, 99);
            assert_eq!(
                fx.rates,
                [("EUR".to_string(), 2.0f64.to_bits()), ("USD".to_string(), 0.25f64.to_bits())]
            );
        }
        _ => panic!("rates are saved first"),
    }
    assert!(matches!(effects[1], Effect::DropFxStatus));
    assert!(matches!(clear_fx_failure(), Effect::DropFxStatus));

    let failure = |edition: Edition, code: i32, body: &str| {
        let (ok, effects) = refresh_fx(edition, "CNY", code, body, 99);
        assert!(!ok);
        let mut effects = effects.into_iter();
        match (effects.next(), effects.next(), effects.next()) {
            (Some(Effect::Log { level: 2, words }), Some(Effect::SaveFxStatus(st)), None) => {
                assert_eq!(st.attempted_at, 99);
                (words, st.reason)
            }
            _ => panic!("a failure is logged and written down"),
        }
    };
    let reason = |code: i32, body: &str| failure(Edition::Reconciling, code, body).1;
    let words = |edition: Edition, code: i32, body: &str| failure(edition, code, body).0;
    assert_eq!(words(Edition::Importing, -4, ""), "finance-stats: 汇率拉取失败（-4）");
    assert_eq!(
        words(Edition::Reconciling, -4, ""),
        "finance-stats: 汇率拉取失败（-4）：网络请求失败或超时"
    );
    for edition in [Edition::Importing, Edition::Reconciling] {
        assert_eq!(words(edition, 2, "{}"), "finance-stats: 汇率响应没有 rates");
        let broken = words(edition, 5, "<html");
        assert!(broken.starts_with("finance-stats: 汇率响应不是 JSON: expected value"), "{broken}");
    }
    assert!(reason(5, "<html").starts_with("汇率响应不是合法 JSON：expected value"));
    assert_eq!(reason(2, "{}"), "汇率响应里没有 rates 字段");
    assert_eq!(reason(2, r#"{"rates":{}}"#), "汇率响应里没有 rates 字段");
    assert_eq!(reason(2, r#"{"rates":{"USD":"x"}}"#), "汇率响应里没有 rates 字段");
    assert_eq!(reason(0, ""), "汇率服务返回了空响应");
    let (ok, _) = take_rates(Edition::Importing, "CNY", 1, Ok(Some(vec![("USD".to_string(), 1)])), 0);
    assert!(ok);
    let (ok, effects) = take_rates(Edition::Importing, "CNY", 1, Ok(None), 0);
    assert!(!ok && effects.len() == 2);
}

#[test]
fn a_failed_refresh_is_answered_with_its_reason() {
    let status = Some(FxStatus { reason: "R".to_string(), attempted_at: 1 });
    assert_eq!(refresh_fx_failure_toast(&status, true), "汇率刷新失败，统计沿用最近一次缓存：R");
    assert_eq!(
        refresh_fx_failure_toast(&status, false),
        "汇率刷新失败：R（尚未成功拉取过汇率，统计暂缺）"
    );
    assert_eq!(refresh_fx_failure_toast(&None, true), "汇率刷新失败");
}

#[test]
fn requests_are_read_as_far_as_they_go() {
    match read_request(r#"{"action":"save_node","id":3,"price":1.5,"name":"x","currency":7}"#) {
        Request::SaveNode { id, edit } => {
            assert_eq!(id, Some(3));
            assert_eq!(edit.price, Some(1.5f64.to_bits()));
            assert_eq!(edit.name, Some("x".to_string()));
            assert_eq!(edit.currency, None);
            let n = apply_edit(node(9.0, "USD", "once", Some("2027-01-01")), edit);
            assert_eq!((n.name.as_str(), n.currency.as_str()), ("x", "USD"));
            assert_eq!(f64::from_bits(n.price), 1.5);
            assert_eq!(n.expires_at.unwrap(), "2027-01-01");
        }
        other => panic!("{other:?}"),
    }
    match read_request(r#"{"action":"set_currency","value":"EUR"}"#) {
        Request::SetCurrency { value } => assert_eq!(value, Some("EUR".to_string())),
        other => panic!("{other:?}"),
    }
    assert!(matches!(read_request(r#"{"action":"refresh_fx"}"#), Request::RefreshFx));
    assert!(matches!(read_request(r#"{"action":"dance"}"#), Request::Other));
    assert!(matches!(read_request("[]"), Request::Other));
    assert!(matches!(read_request(""), Request::Other));
    let edit = Edit {
        name: None,
        price: None,
        currency: None,
        billing_cycle: Some("yearly".to_string()),
        expires_at: Some(String::new()),
    };
    let n = apply_edit(node(9.0, "USD", "once", Some("2027-01-01")), edit);
    assert_eq!(n.expires_at, None);
    assert_eq!(n.billing_cycle, "yearly");
}

#[test]
fn a_hint_replaces_the_one_before() {
    let page = Fields::new().with("title", text("t")).done();
    let page = with_toast(page, "error", "a");
    let page = with_toast(page, "success", "b");
    match page {
        Json::Object(fields) => {
            assert_eq!(fields.len(), 2);
            assert_eq!(fields[1].0, "toast");
            match &fields[1].1 {
                Json::Object(hint) => {
                    assert!(matches!(&hint[0], (k, Json::Text(v)) if k == "kind" && v == "success"));
                    assert!(matches!(&hint[1], (k, Json::Text(v)) if k == "text" && v == "b"));
                }
                _ => panic!("a hint is an object"),
            }
        }
        _ => panic!("a page is an object"),
    }
    assert!(matches!(with_toast(Json::Null, "error", "a"), Json::Null));
}

// ---------------------------------------------------------------------------
// Memory
// ---------------------------------------------------------------------------

#[test]
fn spaced_blocks_leave_a_gap() {
    let mut heap = Heap::new(Layout::Spaced);
    assert_eq!(heap.allocate(0), 1024);
    assert_eq!(heap.allocate(10), 1024);
    assert_eq!(heap.allocate(-5), 1024);
    assert_eq!(heap.allocate(1), 1042);
    assert_eq!(write_str(&mut heap, "节点"), (1051, 6));
    assert_eq!(write_bytes(&mut heap, &[]), (1065, 0));
    assert_eq!(heap.next, 1074);
}

#[test]
fn aligned_blocks_begin_at_multiples_of_four() {
    let mut heap = Heap::new(Layout::Aligned);
    assert_eq!(heap.allocate(0), 0);
    assert_eq!(heap.allocate(5), 1024);
    assert_eq!(heap.allocate(4), 1032);
    assert_eq!(write_str(&mut heap, ""), (1036, 0));
    assert_eq!(write_str(&mut heap, "abc"), (1040, 3));
    assert_eq!(heap.next, 1044);
    heap.next = 0x8000_0000;
    assert_eq!(write_bytes(&mut heap, &[1]), (0, 0));
}

#[test]
fn bytes_are_read_as_far_as_they_are_text() {
    assert_eq!(bytes_to_string("节点 a".as_bytes()), "节点 a");
    assert_eq!(bytes_to_string(&[b'a', 0xff, b'b']), "a\u{fffd}b");
    assert_eq!(reply_text(0, b"xyz"), None);
    assert_eq!(reply_text(-8, b"xyz"), None);
    assert_eq!(reply_text(2, b"xyz"), Some("xy".to_string()));
    assert_eq!(input_span(0, 5), None);
    assert_eq!(input_span(5, 0), None);
    assert_eq!(input_span(-1, 5), None);
    assert_eq!(input_span(1024, 5), Some((1024, 5)));
    assert_eq!(reply_code(0, 9), -1);
    assert_eq!(reply_code(1024, 9), 9);
}
