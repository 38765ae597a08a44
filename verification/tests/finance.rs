//! The finance plugin end to end: its questions are answered by a host in memory.

use std::collections::{BTreeMap, HashMap};

use chrono::{DateTime, Duration, NaiveDate};
use monitor_plugins::finance::effect::Effect;
use monitor_plugins::finance::event::NodeEvent;
use monitor_plugins::finance::record::{
    node_key, Config, Edition, Fx, FxStatus, NodeFin, Row, SETTING_ROOM,
};
use monitor_plugins::finance::roster::HostNode;
use monitor_plugins::finance::session::{
    advance, on_action, on_cleanup, on_event, on_tick, render_page, Answer, Ask, Stage, Step, Turn,
};
use monitor_plugins::finance::stats::{Amount, Conversion, Term};
use monitor_plugins::finance::takeover::data_rows;
use monitor_plugins::json::Json;
use serde_json::{Number, Value};

/// The clock of the tests, in January 2027.
const NOW: i64 = 1_800_000_000;

fn today() -> NaiveDate {
    DateTime::from_timestamp(NOW, 0).unwrap().date_naive()
}

fn days_from_now(days: i64) -> String {
    (today() + Duration::days(days)).to_string()
}

fn ts(secs: i64) -> String {
    DateTime::from_timestamp(secs, 0).unwrap().format("%Y-%m-%d %H:%M UTC").to_string()
}

/// A host that keeps everything in memory.
struct Host {
    edition: Edition,
    now: i64,
    data: BTreeMap<String, String>,
    emitted: Vec<(String, Value)>,
    nodes: Vec<(i64, String, bool, Option<i64>)>,
    http_body: Option<String>,
    http_error: Option<i32>,
    urls: Vec<String>,
    threshold: Option<String>,
    records_fail: bool,
    hosts_fail: bool,
    hosts_garbled: bool,
    puts: Vec<String>,
    logs: Vec<(i32, String)>,
}

fn host(edition: Edition) -> Host {
    Host {
        edition,
        now: NOW,
        data: BTreeMap::new(),
        emitted: Vec::new(),
        nodes: Vec::new(),
        http_body: None,
        http_error: None,
        urls: Vec::new(),
        threshold: None,
        records_fail: false,
        hosts_fail: false,
        hosts_garbled: false,
        puts: Vec::new(),
        logs: Vec::new(),
    }
}

fn importing() -> Host {
    host(Edition::Importing)
}

/// A host of the importing edition whose nodes were taken over before.
fn imported() -> Host {
    let mut h = importing();
    h.seed("config", r#"{"target_currency":"CNY","threshold_days":7,"imported":true}"#);
    h
}

fn reconciling() -> Host {
    host(Edition::Reconciling)
}

fn object(fields: Vec<(&str, Value)>) -> Value {
    let mut map = serde_json::Map::new();
    for (key, value) in fields {
        map.insert(key.to_string(), value);
    }
    Value::Object(map)
}

fn number(bits: u64) -> Value {
    Number::from_f64(f64::from_bits(bits)).map(Value::Number).unwrap_or(Value::Null)
}

fn opt(text: &Option<String>) -> Value {
    text.clone().map(Value::from).unwrap_or(Value::Null)
}

fn value_of(json: &Json) -> Value {
    match json {
        Json::Null => Value::Null,
        Json::Bool(b) => Value::from(*b),
        Json::Int(n) => Value::from(*n),
        Json::Double(bits) => number(*bits),
        Json::Text(t) => Value::from(t.clone()),
        Json::List(list) => Value::Array(list.iter().map(value_of).collect()),
        Json::Object(fields) => {
            Value::Object(fields.iter().map(|(k, v)| (k.clone(), value_of(v))).collect())
        }
    }
}

fn text_field(v: &Value, key: &str) -> Option<String> {
    v.get(key).and_then(Value::as_str).map(str::to_string)
}

fn parse_node(text: &str) -> Option<NodeFin> {
    let v: Value = serde_json::from_str(text).ok()?;
    Some(NodeFin {
        name: text_field(&v, "name")?,
        price: v.get("price")?.as_f64()?.to_bits(),
        currency: text_field(&v, "currency")?,
        billing_cycle: text_field(&v, "billing_cycle")?,
        expires_at: text_field(&v, "expires_at"),
        purchased_at: text_field(&v, "purchased_at"),
        host_created_at: v.get("host_created_at").and_then(Value::as_i64),
        last_notified: v.get("last_notified").and_then(Value::as_i64),
    })
}

fn node_text(n: &NodeFin) -> String {
    object(vec![
        ("name", Value::from(n.name.clone())),
        ("price", number(n.price)),
        ("currency", Value::from(n.currency.clone())),
        ("billing_cycle", Value::from(n.billing_cycle.clone())),
        ("expires_at", opt(&n.expires_at)),
        ("purchased_at", opt(&n.purchased_at)),
        ("host_created_at", n.host_created_at.map(Value::from).unwrap_or(Value::Null)),
        ("last_notified", n.last_notified.map(Value::from).unwrap_or(Value::Null)),
    ])
    .to_string()
}

fn parse_config(text: &str) -> Option<Config> {
    let v: Value = serde_json::from_str(text).ok()?;
    Some(Config {
        target_currency: text_field(&v, "target_currency").unwrap_or("CNY".to_string()),
        threshold_days: v.get("threshold_days").and_then(Value::as_i64).unwrap_or(7),
        imported: v.get("imported").and_then(Value::as_bool).unwrap_or(false),
    })
}

fn parse_fx(text: &str) -> Option<Fx> {
    let v: Value = serde_json::from_str(text).ok()?;
    let rates = v.get("rates")?.as_object()?;
    Some(Fx {
        base: text_field(&v, "base")?,
        rates: rates
            .iter()
            .map(|(code, rate)| (code.clone(), rate.as_f64().unwrap().to_bits()))
            .collect(),
        fetched_at: v.get("fetched_at")?.as_i64()?,
    })
}

fn fx_text(fx: &Fx) -> String {
    let rates: serde_json::Map<String, Value> =
        fx.rates.iter().map(|(code, bits)| (code.clone(), number(*bits))).collect();
    object(vec![
        ("base", Value::from(fx.base.clone())),
        ("rates", Value::Object(rates)),
        ("fetched_at", Value::from(fx.fetched_at)),
    ])
    .to_string()
}

fn parse_status(text: &str) -> Option<FxStatus> {
    let v: Value = serde_json::from_str(text).ok()?;
    Some(FxStatus { reason: text_field(&v, "reason")?, attempted_at: v.get("attempted_at")?.as_i64()? })
}

fn term_value(term: &Term) -> f64 {
    let amount = match term.amount {
        Amount::Yearly { price, months } => f64::from_bits(price) * (12.0 / months as f64),
        Amount::Zero => 0.0,
        Amount::Prorated { price, days, span } => {
            f64::from_bits(price) * (days as f64 / span as f64)
        }
    };
    match term.conversion {
        Conversion::Same => amount,
        Conversion::DivideBy { rate } => amount / f64::from_bits(rate),
    }
}

fn total(terms: &[Term]) -> String {
    let mut sum = 0.0;
    for term in terms {
        sum += term_value(term);
    }
    format!("{sum:.2}")
}

impl Host {
    fn seed(&mut self, key: &str, value: &str) {
        self.data.insert(key.to_string(), value.to_string());
    }

    fn put(&mut self, key: String, value: String) {
        self.puts.push(key.clone());
        self.data.insert(key, value);
    }

    fn perform(&mut self, effect: Effect) {
        let key = effect.key();
        match effect {
            Effect::SaveNode { node, .. } => self.put(key.unwrap(), node_text(&node)),
            Effect::DeleteNode { .. } | Effect::DropFxStatus => {
                self.data.remove(&key.unwrap());
            }
            Effect::SaveConfig(c) => {
                let value = object(vec![
                    ("target_currency", Value::from(c.target_currency)),
                    ("threshold_days", Value::from(c.threshold_days)),
                    ("imported", Value::from(c.imported)),
                ]);
                self.put(key.unwrap(), value.to_string());
            }
            Effect::SaveFx(fx) => self.put(key.unwrap(), fx_text(&fx)),
            Effect::SaveFxStatus(st) => {
                let value = object(vec![
                    ("reason", Value::from(st.reason)),
                    ("attempted_at", Value::from(st.attempted_at)),
                ]);
                self.put(key.unwrap(), value.to_string());
            }
            Effect::Log { level, words } => {
                assert_eq!(key, None);
                self.logs.push((level, words));
            }
            Effect::Announce(notice) => {
                assert_eq!(key, None);
                self.emitted.push((notice.event(), value_of(&notice.payload())));
            }
        }
    }

    fn http_get(&mut self, url: String) -> (i32, String) {
        self.urls.push(url);
        if let Some(code) = self.http_error {
            return (code, String::new());
        }
        match &self.http_body {
            Some(body) => (body.len() as i32, body.clone()),
            None => (-4, String::new()),
        }
    }

    fn answer(&mut self, ask: Ask) -> Answer {
        match ask {
            Ask::Config => Answer::Config(self.data.get("config").and_then(|t| parse_config(t))),
            Ask::Threshold => {
                let mut buffer = vec![0u8; SETTING_ROOM];
                let text = self.threshold.clone().unwrap_or_default();
                let count = text.len().min(buffer.len());
                buffer[..count].copy_from_slice(&text.as_bytes()[..count]);
                Answer::Threshold { count: count as i32, buffer }
            }
            Ask::Clock => Answer::Clock(self.now),
            Ask::Records => {
                if self.records_fail {
                    return Answer::Records(None);
                }
                let list = self.data.iter().filter(|(key, _)| key.starts_with("node:")).map(
                    |(key, text)| {
                        object(vec![
                            ("key", Value::from(key.clone())),
                            ("data", Value::from(text.clone())),
                        ])
                    },
                );
                let rows = data_rows(&Value::Array(list.collect()).to_string());
                let rows = rows.into_iter().map(|(key, text)| Row { key, node: parse_node(&text) });
                Answer::Records(Some(rows.collect()))
            }
            Ask::Hosts => match self.edition {
                Edition::Importing => {
                    if self.hosts_fail {
                        return Answer::Entries { count: -8, body: String::new() };
                    }
                    if self.hosts_garbled {
                        return Answer::Entries { count: 4, body: "[{\"i".to_string() };
                    }
                    let list = self.nodes.iter().map(|(id, name, online, _)| {
                        object(vec![
                            ("id", Value::from(*id)),
                            ("name", Value::from(name.clone())),
                            ("online", Value::from(*online)),
                        ])
                    });
                    let body = Value::Array(list.collect()).to_string();
                    Answer::Entries { count: body.len() as i32, body }
                }
                Edition::Reconciling => {
                    if self.hosts_fail {
                        return Answer::Hosts { count: -8, nodes: None };
                    }
                    if self.hosts_garbled {
                        return Answer::Hosts { count: 4, nodes: None };
                    }
                    let nodes = self.nodes.iter().map(|(id, name, online, created)| HostNode {
                        id: *id,
                        name: name.clone(),
                        online: *online,
                        created_at: *created,
                    });
                    Answer::Hosts { count: 2, nodes: Some(nodes.collect()) }
                }
            },
            Ask::Rates { url } => {
                let (code, body) = self.http_get(url);
                Answer::Rates { code, body }
            }
            Ask::Fx => Answer::Fx(self.data.get("fx").and_then(|t| parse_fx(t))),
            Ask::FxStatus => Answer::FxStatus(self.data.get("fx_status").and_then(|t| parse_status(t))),
            Ask::Node { id } => Answer::Node(self.data.get(&node_key(id)).and_then(|t| parse_node(t))),
            Ask::Size { id } => Answer::Size(self.data.get(&node_key(id)).map(|t| t.len() as u16)),
            Ask::Sums { totals } => Answer::Sums {
                annual: total(&totals.annual),
                remaining: total(&totals.remaining),
            },
        }
    }

    fn run(&mut self, step: Step) -> Option<Value> {
        let mut step = step;
        loop {
            for effect in step.effects {
                self.perform(effect);
            }
            match step.turn {
                Turn::Done { reply } => return reply.map(|json| value_of(&json)),
                Turn::Ask { ask, stage } => {
                    let answer = self.answer(ask);
                    step = advance(self.edition, stage, answer);
                }
            }
        }
    }

    /// One tick; the names of the events that it emitted.
    fn tick(&mut self) -> Vec<String> {
        let before = self.emitted.len();
        assert_eq!(self.run(on_tick()), None);
        self.emitted[before..].iter().map(|(name, _)| name.clone()).collect()
    }

    fn page(&mut self) -> Value {
        self.run(render_page()).unwrap()
    }

    fn act(&mut self, input: &str) -> Value {
        self.run(on_action(self.edition, input)).unwrap()
    }

    fn tell(&mut self, event: Option<NodeEvent>) {
        assert_eq!(self.run(on_event(self.edition, event)), None);
    }

    fn row(&self, key: &str) -> Value {
        serde_json::from_str(&self.data[key]).unwrap()
    }

    fn has(&self, key: &str) -> bool {
        self.data.contains_key(key)
    }
}

fn fx_json(base: &str) -> String {
    format!(
        r#"{{"amount":1.0,"base":"{base}","date":"2027-01-15","rates":{{"USD":0.14,"CNY":1.0,"EUR":0.13}}}}"#
    )
}

fn fx_record(base: &str, fetched_at: i64) -> String {
    let rates = object(vec![
        ("USD", Value::from(0.14)),
        ("CNY", Value::from(1.0)),
        ("EUR", Value::from(0.13)),
    ]);
    object(vec![
        ("base", Value::from(base)),
        ("rates", rates),
        ("fetched_at", Value::from(fetched_at)),
    ])
    .to_string()
}

fn fx_status_record(reason: &str, attempted_at: i64) -> String {
    object(vec![("reason", Value::from(reason)), ("attempted_at", Value::from(attempted_at))])
        .to_string()
}

fn node_record(name: &str, price: f64, currency: &str, cycle: &str, expires: Option<&str>) -> String {
    object(vec![
        ("name", Value::from(name)),
        ("price", Value::from(price)),
        ("currency", Value::from(currency)),
        ("billing_cycle", Value::from(cycle)),
        ("expires_at", expires.map(Value::from).unwrap_or(Value::Null)),
        ("purchased_at", Value::Null),
    ])
    .to_string()
}

fn blocks(page: &Value) -> &Vec<Value> {
    page["blocks"].as_array().unwrap()
}

fn block_of<'a>(page: &'a Value, kind: &str) -> &'a Value {
    blocks(page).iter().find(|b| b["type"] == kind).unwrap()
}

fn notice_texts(page: &Value) -> Vec<String> {
    blocks(page)
        .iter()
        .filter(|b| b["type"] == "notice")
        .map(|b| b["text"].as_str().unwrap().to_string())
        .collect()
}

fn field_of<'a>(form: &'a Value, name: &str) -> &'a Value {
    form["fields"].as_array().unwrap().iter().find(|f| f["name"] == name).unwrap()
}

fn toast_of(page: &Value) -> (String, String) {
    let toast = page.get("toast").unwrap();
    (toast["kind"].as_str().unwrap().to_string(), toast["text"].as_str().unwrap().to_string())
}

fn pair(kind: &str, text: &str) -> (String, String) {
    (kind.to_string(), text.to_string())
}

// ---------------------------------------------------------------------------
// The importing edition
// ---------------------------------------------------------------------------

#[test]
fn tick_imports_nodes_once() {
    let mut h = importing();
    h.nodes.push((1, "edge-1".to_string(), true, None));
    h.nodes.push((2, "edge-2".to_string(), false, None));
    h.http_body = Some(fx_json("CNY"));

    h.tick();
    assert!(h.has("node:1"));
    assert!(h.has("node:2"));
    assert!(h.has("fx"));

    h.seed("node:1", &node_record("edge-1", 42.0, "USD", "monthly", None));
    h.tick();
    assert!(h.data["node:1"].contains("42"));
}

#[test]
fn overdue_online_node_rolls_forward() {
    let mut h = imported();
    h.nodes.push((1, "edge-1".to_string(), true, None));
    h.http_body = Some(fx_json("CNY"));
    let past = days_from_now(-1);
    h.seed("node:1", &node_record("edge-1", 10.0, "USD", "monthly", Some(&past)));

    let emitted = h.tick();
    assert!(emitted.is_empty());
    assert!(!h.data["node:1"].contains(&past));
}

#[test]
fn threshold_node_emits_event() {
    let mut h = imported();
    h.nodes.push((7, "edge-7".to_string(), false, None));
    h.http_body = Some(fx_json("CNY"));
    let soon = days_from_now(7);
    h.seed("node:7", &node_record("edge-7", 10.0, "USD", "monthly", Some(&soon)));

    h.tick();
    assert_eq!(h.emitted.len(), 1);
    assert_eq!(h.emitted[0].0, "plugin_expiry_soon");
    let payload = &h.emitted[0].1;
    assert_eq!(payload["node_id"], 7);
    assert_eq!(payload["days_left"], 7);
    assert_eq!(payload["threshold_days"], 7);
    assert_eq!(payload["expires_at"], soon.as_str());
    assert_eq!(payload["name"], "edge-7");
}

#[test]
fn page_warns_when_fx_unavailable() {
    let mut h = imported();
    h.tick();
    let page = h.page().to_string();
    assert!(page.contains("汇率不可用"), "{page}");
    assert!(page.contains("尚未成功拉取过汇率"), "{page}");
}

#[test]
fn render_page_fetches_fx_when_cache_missing() {
    let mut h = imported();
    h.http_body = Some(fx_json("CNY"));
    h.seed("node:1", &node_record("paid", 10.0, "USD", "monthly", None));

    let page = h.page();
    assert_eq!(h.urls.len(), 1);
    let notices = notice_texts(&page);
    assert!(notices.iter().any(|t| t.contains(&format!("汇率基准 CNY，更新时间 {}", ts(NOW)))));
    assert!(blocks(&page).iter().any(|b| b["type"] == "stat"));
    assert!(h.has("fx"));
    assert!(!h.has("fx_status"));
}

#[test]
fn render_page_warns_with_failure_reason_when_fetch_fails() {
    let mut h = imported();
    let page = h.page();
    assert_eq!(h.urls.len(), 1);
    let text = &notice_texts(&page)[0];
    assert!(text.contains("尚未成功拉取过汇率"), "{text}");
    assert!(text.contains("网络请求失败或超时"), "{text}");
    assert!(text.contains(&ts(NOW)), "{text}");
    assert!(!h.has("fx"));
    assert!(h.has("fx_status"));
}

#[test]
fn render_page_does_not_fetch_when_cache_present() {
    let mut h = imported();
    h.seed("fx", &fx_record("CNY", NOW - 86_400));
    let page = h.page();
    assert_eq!(h.urls.len(), 0);
    assert_eq!(
        notice_texts(&page),
        vec![format!("汇率基准 CNY，更新时间 {}", ts(NOW - 86_400))]
    );
}

#[test]
fn cached_page_appends_last_refresh_failure() {
    let mut h = imported();
    h.seed("fx", &fx_record("CNY", NOW - 7_200));
    h.seed("fx_status", &fx_status_record("网络请求失败或超时", NOW));
    let page = h.page();
    assert_eq!(h.urls.len(), 0);
    let notices = notice_texts(&page);
    assert!(notices.iter().any(|t| t.contains(&format!("汇率基准 CNY，更新时间 {}", ts(NOW - 7_200)))));
    assert!(notices
        .iter()
        .any(|t| t.contains(&format!("最近一次刷新 {} 失败：网络请求失败或超时", ts(NOW)))));
}

#[test]
fn save_node_action_does_not_fetch_fx() {
    let mut h = imported();
    h.seed("node:1", &node_record("edge-1", 10.0, "USD", "monthly", None));
    let page = h.act(
        r#"{"action":"save_node","id":1,"name":"edge-renamed","price":10.0,
            "currency":"USD","billing_cycle":"monthly","expires_at":""}"#,
    );
    assert_eq!(h.urls.len(), 0);
    assert_eq!(toast_of(&page), pair("success", "已保存"));
    assert!(notice_texts(&page).iter().any(|t| t.contains("尚未成功拉取过汇率")));
}

#[test]
fn successful_refresh_clears_failure_status() {
    let mut h = imported();
    h.http_body = Some(fx_json("CNY"));
    h.seed("fx_status", &fx_status_record("网络请求失败或超时", NOW - 3_600));
    let page = h.act(r#"{"action":"refresh_fx"}"#);
    assert_eq!(toast_of(&page).0, "success");
    assert!(h.has("fx"));
    assert!(!h.has("fx_status"));
    assert!(!notice_texts(&page).iter().any(|t| t.contains("失败")));
}

#[test]
fn failure_reasons_are_classified_and_recorded_everywhere() {
    let mut h = imported();
    h.tick();
    let st = h.row("fx_status");
    assert_eq!(st["reason"], "网络请求失败或超时");
    assert_eq!(st["attempted_at"], NOW);

    let mut h = imported();
    h.http_body = Some("<html>502</html>".to_string());
    h.tick();
    assert!(h.row("fx_status")["reason"].as_str().unwrap().contains("JSON"));

    let mut h = imported();
    h.http_body = Some(r#"{"amount":1.0,"base":"CNY"}"#.to_string());
    h.tick();
    assert!(h.row("fx_status")["reason"].as_str().unwrap().contains("rates"));

    let mut h = imported();
    h.http_error = Some(-5);
    h.tick();
    assert!(h.row("fx_status")["reason"].as_str().unwrap().contains("非 2xx"));

    let mut h = imported();
    h.http_error = Some(-7);
    h.tick();
    assert!(h.row("fx_status")["reason"].as_str().unwrap().contains("宿主返回错误码 -7"));
}

#[test]
fn page_renders_within_the_production_fuel_budget() {
    let mut h = imported();
    for i in 1..=100 {
        h.seed(
            &format!("node:{i}"),
            &node_record(&format!("edge-{i}"), 10.0, "USD", "monthly", Some("2027-01-20")),
        );
    }
    let page = h.page();
    assert_eq!(block_of(&page, "form")["rows"].as_array().unwrap().len(), 100);
}

#[test]
fn page_totals_convert_and_skip_free() {
    let mut h = imported();
    h.http_body = Some(fx_json("CNY"));
    h.seed("node:1", &node_record("paid", 10.0, "USD", "monthly", None));
    h.seed("node:2", &node_record("free", 0.0, "USD", "monthly", None));
    h.tick();
    let page = h.page();
    let stats = block_of(&page, "stat");
    let annual = stats["items"][0]["value"].as_str().unwrap().parse::<f64>().unwrap();
    assert!((annual - 120.0 / 0.14).abs() < 1.0, "{annual}");
    assert_eq!(stats["items"][0]["value"], "857.14");
    assert_eq!(stats["items"][0]["label"], "年化续费总成本（CNY）");
}

#[test]
fn remaining_value_prorates_within_cycle() {
    let mut h = imported();
    h.http_body = Some(fx_json("CNY"));
    let in15 = days_from_now(15);
    h.seed("node:1", &node_record("edge", 10.0, "USD", "monthly", Some(&in15)));
    h.tick();
    let page = h.page();
    let stats = block_of(&page, "stat");
    let remaining = stats["items"][1]["value"].as_str().unwrap().parse::<f64>().unwrap();
    let expect = 5.0 / 0.14;
    assert!((remaining - expect).abs() < 1.0, "{remaining}");
    assert_eq!(stats["items"][1]["value"], "35.71");
}

#[test]
fn set_currency_persists_and_recomputes() {
    let mut h = imported();
    h.http_body = Some(fx_json("CNY"));
    let page = h.act(r#"{"action":"set_currency","value":"EUR"}"#);
    assert!(h.data["config"].contains("EUR"));
    assert_eq!(toast_of(&page), pair("success", "已切换币种"));
    assert_eq!(h.urls, vec!["https://api.frankfurter.dev/v1/latest?base=EUR".to_string()]);
}

#[test]
fn cleanup_prunes_deleted_nodes() {
    let mut h = importing();
    h.nodes.push((1, "kept".to_string(), true, None));
    h.seed("node:1", &node_record("kept", 1.0, "USD", "monthly", None));
    h.seed("node:99", &node_record("gone", 1.0, "USD", "monthly", None));
    let size = h.data["node:99"].len();

    let out = h.run(on_cleanup()).unwrap();
    assert_eq!(out["pruned"], 1);
    assert_eq!(out["freed_bytes"], size);
    assert!(h.has("node:1"));
    assert!(!h.has("node:99"));
}

#[test]
fn form_fields_declare_labels_and_select_options() {
    let mut h = imported();
    let page = h.page();
    let form = block_of(&page, "form");
    let names: Vec<&str> =
        form["fields"].as_array().unwrap().iter().map(|f| f["name"].as_str().unwrap()).collect();
    assert_eq!(names, ["name", "price", "currency", "billing_cycle", "expires_at"]);

    for (name, label) in [
        ("name", "节点名"),
        ("price", "价格"),
        ("currency", "币种"),
        ("billing_cycle", "计费周期"),
        ("expires_at", "到期日"),
    ] {
        assert_eq!(field_of(form, name)["label"], label);
    }

    assert_eq!(field_of(form, "price")["type"], "number");
    assert_eq!(field_of(form, "expires_at")["type"], "date");
    assert_eq!(field_of(form, "name")["type"], "text");
    assert_eq!(field_of(form, "currency")["type"], "select");
    assert_eq!(field_of(form, "billing_cycle")["type"], "select");

    let currencies: Vec<&str> = field_of(form, "currency")["options"]
        .as_array()
        .unwrap()
        .iter()
        .map(|o| o.as_str().unwrap())
        .collect();
    assert_eq!(
        currencies,
        ["CNY", "USD", "EUR", "GBP", "JPY", "CAD", "HKD", "AUD", "CHF", "SGD", "KRW", "INR"]
    );

    let cycles: Vec<&str> = field_of(form, "billing_cycle")["options"]
        .as_array()
        .unwrap()
        .iter()
        .map(|o| o.as_str().unwrap())
        .collect();
    for c in ["monthly", "quarterly", "semiannual", "yearly", "biennial", "triennial"] {
        assert!(cycles.contains(&c), "{c}");
    }
    assert!(cycles.contains(&"once"));
}

#[test]
fn save_node_toasts_and_persists() {
    let mut h = imported();
    h.http_body = Some(fx_json("CNY"));
    h.seed("node:1", &node_record("edge-1", 10.0, "USD", "monthly", None));
    h.tick();

    let page = h.act(
        r#"{"action":"save_node","id":1,"name":"edge-renamed","price":42.5,
            "currency":"EUR","billing_cycle":"yearly","expires_at":"2027-06-01"}"#,
    );
    assert_eq!(toast_of(&page), pair("success", "已保存"));
    let rec = h.row("node:1");
    assert_eq!(rec["name"], "edge-renamed");
    assert_eq!(rec["price"], 42.5);
    assert_eq!(rec["currency"], "EUR");
    assert_eq!(rec["billing_cycle"], "yearly");
    assert_eq!(rec["expires_at"], "2027-06-01");

    let stats = block_of(&page, "stat");
    let annual = stats["items"][0]["value"].as_str().unwrap().parse::<f64>().unwrap();
    assert!((annual - 42.5 / 0.13).abs() < 1.0, "{annual}");
}

#[test]
fn save_node_without_record_toasts_error() {
    let mut h = imported();
    let page = h.act(r#"{"action":"save_node","id":404,"price":9.0}"#);
    let (kind, text) = toast_of(&page);
    assert_eq!(kind, "error");
    assert!(text.contains("不存在"), "{text}");
    assert!(!h.has("node:404"));
}

#[test]
fn refresh_fx_toasts_success_and_failure() {
    let mut h = imported();
    h.http_body = Some(fx_json("CNY"));
    let ok = h.act(r#"{"action":"refresh_fx"}"#);
    assert_eq!(toast_of(&ok).0, "success");
    assert!(h.has("fx"));

    let mut h = imported();
    let bad = h.act(r#"{"action":"refresh_fx"}"#);
    let (kind, text) = toast_of(&bad);
    assert_eq!(kind, "error");
    assert!(text.contains("汇率刷新失败"), "{text}");
    assert!(text.contains("尚未成功拉取过汇率"), "{text}");
    assert!(!text.contains("沿用"), "{text}");
    let persisted = h.row("fx_status");
    assert!(text.contains(persisted["reason"].as_str().unwrap()), "{text}");
    assert!(!h.has("fx"));
}

#[test]
fn refresh_fx_failure_toast_mentions_cache_and_reason() {
    let mut h = imported();
    h.seed("fx", &fx_record("CNY", NOW - 86_400));
    let page = h.act(r#"{"action":"refresh_fx"}"#);
    let (kind, text) = toast_of(&page);
    assert_eq!(kind, "error");
    assert!(text.contains("沿用最近一次缓存"), "{text}");
    assert!(!text.contains("统计暂缺"), "{text}");
    let persisted = h.row("fx_status");
    assert!(text.contains(persisted["reason"].as_str().unwrap()), "{text}");
    assert_eq!(h.data["fx"], fx_record("CNY", NOW - 86_400));
}

#[test]
fn importing_waits_for_a_host_that_answers() {
    let mut h = importing();
    h.nodes.push((1, "edge-1".to_string(), true, None));
    h.hosts_fail = true;
    h.tick();
    h.page();
    h.hosts_fail = false;
    h.hosts_garbled = true;
    h.tick();
    assert!(!h.has("node:1"));
    assert!(!h.has("config"));
    h.hosts_garbled = false;
    h.tick();
    assert_eq!(h.row("node:1")["name"], "edge-1");
    assert_eq!(h.row("config")["imported"], true);
}

#[test]
fn a_sweep_without_an_answer_of_the_host_clears_nothing() {
    for garbled in [false, true] {
        let mut h = imported();
        h.hosts_fail = !garbled;
        h.hosts_garbled = garbled;
        h.seed("node:9", &node_record("gone", 1.0, "USD", "monthly", None));
        let reply = h.run(on_cleanup()).unwrap();
        assert_eq!((reply["pruned"].as_i64(), reply["freed_bytes"].as_i64()), (Some(0), Some(0)));
        assert!(h.has("node:9"));
    }
}

#[test]
fn importing_page_takes_nodes_over_before_it_shows_them() {
    let mut h = importing();
    h.nodes.push((5, "edge-5".to_string(), true, None));
    let page = h.page();
    let rows = block_of(&page, "form")["rows"].as_array().unwrap();
    assert_eq!(rows.len(), 1);
    assert_eq!(rows[0]["name"], "edge-5");
    assert_eq!(rows[0]["billing_cycle"], "monthly");
    assert_eq!(rows[0]["price"], 0.0);
    assert_eq!(rows[0]["free"], true);
    assert_eq!(h.row("node:5")["purchased_at"], today().to_string().as_str());
}

#[test]
fn importing_does_not_listen_to_events() {
    let mut h = imported();
    h.tell(Some(NodeEvent::Added { node_id: 3, name: "edge-3".to_string(), created_at: Some(1) }));
    assert!(!h.has("node:3"));
}

#[test]
fn importing_announces_on_the_threshold_alone() {
    let mut h = imported();
    let sooner = days_from_now(6);
    h.seed("node:1", &node_record("edge-1", 10.0, "USD", "monthly", Some(&sooner)));
    assert!(h.tick().is_empty());
}

#[test]
fn importing_page_has_no_totals_without_rates() {
    let mut h = imported();
    let page = h.page();
    assert!(!blocks(&page).iter().any(|b| b["type"] == "stat"));
    let select = block_of(&page, "select");
    assert_eq!(select["value"], "CNY");
    assert_eq!(select["action"], "set_currency");
    assert_eq!(page["title"], "财务统计");
}

// ---------------------------------------------------------------------------
// The reconciling edition
// ---------------------------------------------------------------------------

fn priced(name: &str, price: f64, created: Option<i64>) -> String {
    let mut v: Value = serde_json::from_str(&node_record(name, price, "USD", "monthly", None)).unwrap();
    v["host_created_at"] = created.map(Value::from).unwrap_or(Value::Null);
    v.to_string()
}

#[test]
fn page_aligns_records_with_the_host() {
    let mut h = reconciling();
    h.nodes.push((10, "ten".to_string(), true, Some(100)));
    h.nodes.push((2, "two".to_string(), true, Some(200)));
    h.nodes.push((3, "three".to_string(), true, Some(333)));
    h.nodes.push((4, "four".to_string(), true, None));
    h.seed("node:2", &priced("old two", 2.0, Some(200)));
    h.seed("node:3", &priced("old three", 3.0, Some(300)));
    h.seed("node:4", &priced("old four", 4.0, Some(400)));
    h.seed("node:9", &priced("gone", 9.0, Some(900)));

    let page = h.page();
    let rows = block_of(&page, "form")["rows"].as_array().unwrap();
    let ids: Vec<i64> = rows.iter().map(|r| r["id"].as_i64().unwrap()).collect();
    assert_eq!(ids, [10, 2, 3, 4]);
    assert_eq!(rows[0]["name"], "ten");
    assert_eq!(rows[0]["billing_cycle"], "yearly");
    assert_eq!(rows[1]["name"], "old two");
    assert_eq!(rows[1]["price"], 2.0);
    assert_eq!(rows[2]["name"], "three");
    assert_eq!(rows[2]["price"], 0.0);
    assert_eq!(rows[3]["name"], "old four");
    assert!(!h.has("node:9"));
    assert_eq!(h.row("node:3")["host_created_at"], 333);

    h.puts.clear();
    h.page();
    assert!(!h.puts.iter().any(|key| key.starts_with("node:")), "{:?}", h.puts);
}

#[test]
fn unmarked_record_is_adopted_and_kept() {
    let mut h = reconciling();
    h.nodes.push((2, "two".to_string(), true, Some(200)));
    h.seed("node:2", &priced("old two", 2.0, None));
    h.tick();
    let rec = h.row("node:2");
    assert_eq!(rec["host_created_at"], 200);
    assert_eq!(rec["price"], 2.0);
    assert_eq!(rec["name"], "old two");
}

#[test]
fn unreadable_records_are_not_overwritten() {
    let mut h = reconciling();
    h.nodes.push((2, "two".to_string(), true, Some(200)));
    h.seed("node:2", &priced("old two", 2.0, Some(200)));
    h.records_fail = true;
    let before = h.data["node:2"].clone();
    h.tick();
    let page = h.page();
    assert_eq!(h.data["node:2"], before);
    assert!(notice_texts(&page)[0].starts_with("读不到插件存的节点记录"));
    assert!(block_of(&page, "form")["rows"].as_array().unwrap().is_empty());
}

#[test]
fn unreadable_hosts_keep_every_record() {
    let mut h = reconciling();
    let past = days_from_now(-3);
    h.seed("node:2", &node_record("two", 2.0, "USD", "monthly", Some(&past)));
    for garbled in [false, true] {
        h.hosts_fail = !garbled;
        h.hosts_garbled = garbled;
        h.logs.clear();
        h.tick();
        assert_eq!(h.row("node:2")["expires_at"], past.as_str());
        let page = h.page();
        assert_eq!(block_of(&page, "form")["rows"].as_array().unwrap().len(), 1);
        let rolling = (2, "finance-stats: nodes_query 失败,本轮跳过到期滚动".to_string());
        let aligning = (2, "finance-stats: nodes_query 失败,本轮跳过节点对账".to_string());
        assert!(h.logs.contains(&rolling) && h.logs.contains(&aligning), "{:?}", h.logs);
    }
    h.hosts_garbled = false;
    h.tick();
    assert!(!h.has("node:2"));
}

#[test]
fn a_tick_logs_what_it_does() {
    let mut h = reconciling();
    h.nodes.push((1, "edge-1".to_string(), true, Some(5)));
    let mut rec: Value =
        serde_json::from_str(&node_record("edge-1", 1.0, "USD", "monthly", Some("2026-12-31"))).unwrap();
    rec["host_created_at"] = Value::from(5);
    h.seed("node:1", &rec.to_string());
    h.http_body = Some(fx_json("CNY"));
    h.tick();
    assert_eq!(
        h.logs,
        [
            (1, "finance-stats: 拉取汇率 https://api.frankfurter.dev/v1/latest?base=CNY".to_string()),
            (1, "finance-stats: 汇率已更新".to_string()),
            (1, r#"finance-stats: 节点 edge-1 到期日滚动到 Some("2027-01-31")"#.to_string()),
        ]
    );

    h.logs.clear();
    h.http_error = Some(-5);
    h.records_fail = true;
    h.tick();
    h.page();
    assert_eq!(
        h.logs[1..],
        [
            (2, "finance-stats: 汇率拉取失败（-5）：汇率服务返回非 2xx 响应".to_string()),
            (3, "finance-stats: 读插件记录失败,本轮跳过对账与到期扫描".to_string()),
            (3, "finance-stats: 读插件记录失败,本轮跳过对账".to_string()),
        ]
    );
}

#[test]
fn a_cut_setting_is_not_set() {
    let mut h = reconciling();
    for (zeros, title) in [(254, "79 天内到期（0）"), (255, "7 天内到期（0）"), (300, "7 天内到期（0）")] {
        h.threshold = Some("0".repeat(zeros) + "79");
        let page = h.page();
        assert_eq!(block_of(&page, "table")["title"], title);
    }
}

#[test]
fn a_node_is_announced_once_a_day() {
    let mut h = reconciling();
    h.nodes.push((1, "edge-1".to_string(), false, Some(5)));
    let soon = days_from_now(3);
    let mut rec: Value =
        serde_json::from_str(&node_record("edge-1", 1.0, "USD", "monthly", Some(&soon))).unwrap();
    rec["host_created_at"] = Value::from(5);
    h.seed("node:1", &rec.to_string());

    assert_eq!(h.tick(), ["plugin_expiry_soon"]);
    assert!(h.tick().is_empty());
    assert_eq!(h.row("node:1")["last_notified"], 3);
    h.now += 86_400;
    assert_eq!(h.tick(), ["plugin_expiry_soon"]);
    assert_eq!(h.emitted[1].1["days_left"], 2);
    h.now += 2 * 86_400;
    assert!(h.tick().is_empty());
}

#[test]
fn a_rolled_node_is_not_announced_and_forgets_its_notices() {
    let mut h = reconciling();
    h.nodes.push((1, "edge-1".to_string(), true, Some(5)));
    let mut rec: Value =
        serde_json::from_str(&node_record("edge-1", 1.0, "USD", "monthly", Some("2026-10-31"))).unwrap();
    rec["host_created_at"] = Value::from(5);
    rec["last_notified"] = Value::from(1);
    h.seed("node:1", &rec.to_string());
    assert!(h.tick().is_empty());
    assert_eq!(h.row("node:1")["expires_at"], "2027-01-30");
    assert_eq!(h.row("node:1")["last_notified"], Value::Null);
}

#[test]
fn the_panel_setting_decides_the_threshold() {
    let mut h = reconciling();
    h.nodes.push((1, "edge-1".to_string(), false, None));
    let later = days_from_now(20);
    h.seed("node:1", &node_record("edge-1", 1.0, "USD", "monthly", Some(&later)));
    assert!(h.tick().is_empty());
    h.threshold = Some(" 30 ".to_string());
    assert_eq!(h.tick(), ["plugin_expiry_soon"]);
    assert_eq!(h.emitted[0].1["threshold_days"], 30);
    let page = h.page();
    assert_eq!(block_of(&page, "table")["title"], "30 天内到期（1）");
    h.threshold = Some("-1".to_string());
    let page = h.page();
    assert_eq!(block_of(&page, "table")["title"], "7 天内到期（0）");
}

#[test]
fn due_rows_come_in_the_order_of_their_days() {
    let mut h = reconciling();
    for (id, days) in [(1, 5), (2, 0), (3, 5), (4, 2), (5, 8), (6, -1)] {
        h.nodes.push((id, format!("edge-{id}"), false, None));
        let day = days_from_now(days);
        let cycle = if id == 4 { "free" } else { "yearly" };
        h.seed(&format!("node:{id}"), &node_record(&format!("edge-{id}"), 1.0, "USD", cycle, Some(&day)));
    }
    let page = h.page();
    let table = block_of(&page, "table");
    let rows: Vec<(String, i64, String)> = table["rows"]
        .as_array()
        .unwrap()
        .iter()
        .map(|r| {
            (
                r[0].as_str().unwrap().to_string(),
                r[2].as_i64().unwrap(),
                r[3].as_str().unwrap().to_string(),
            )
        })
        .collect();
    assert_eq!(
        rows,
        [
            ("edge-2".to_string(), 0, "".to_string()),
            ("edge-4".to_string(), 2, "免费".to_string()),
            ("edge-1".to_string(), 5, "".to_string()),
            ("edge-3".to_string(), 5, "".to_string()),
        ]
    );
    assert_eq!(table["columns"][3], "备注");
}

#[test]
fn totals_carry_symbols_and_name_what_is_missing() {
    let mut h = reconciling();
    h.nodes.push((1, "a".to_string(), false, None));
    h.nodes.push((2, "b".to_string(), false, None));
    h.nodes.push((3, "c".to_string(), false, None));
    h.nodes.push((4, "d".to_string(), false, None));
    h.seed("fx", &fx_record("CNY", NOW));
    h.seed("node:1", &node_record("a", 120.0, "CNY", "yearly", None));
    h.seed("node:2", &node_record("b", 9.0, "XXX", "montly", None));
    h.seed("node:3", &node_record("c", 9.0, "KRW", "monthly", None));
    h.seed("node:4", &node_record("d", 9.0, "JPY", "monthly", None));
    let page = h.page();
    let items = block_of(&page, "stat")["items"].as_array().unwrap();
    assert_eq!(items[0]["select"]["value"], "CNY");
    assert_eq!(items[0]["select"]["options"][0]["label"], "¥ CNY");
    assert_eq!(items[1]["value"], "¥120.00");
    assert_eq!(items[2]["value"], "¥0.00");
    let notices = notice_texts(&page);
    assert_eq!(notices[1], "部分节点币种未在 Frankfurter 汇率表中（JPY、KRW、XXX），未计入汇总");
    assert_eq!(notices[2], "部分节点的计费周期无法识别（montly），未计入年化成本");
    let rows = block_of(&page, "form")["rows"].as_array().unwrap();
    assert_eq!(rows[0]["price_symbol"], "¥");
    assert_eq!(rows[1]["price_symbol"], "XXX");
}

#[test]
fn totals_are_dashes_without_rates() {
    let mut h = reconciling();
    let page = h.page();
    let items = block_of(&page, "stat")["items"].as_array().unwrap();
    assert_eq!(items[1]["value"], "—");
    assert_eq!(items[2]["value"], "—");
    let form = block_of(&page, "form");
    assert_eq!(field_of(form, "price")["type"], "money");
    assert_eq!(field_of(form, "price")["prefix_key"], "price_symbol");
    let cycles = field_of(form, "billing_cycle")["options"].as_array().unwrap();
    assert_eq!(cycles.len(), 8);
    assert_eq!(cycles[7]["value"], "free");
    assert_eq!(cycles[7]["label"], "免费");
    assert_eq!(cycles[3]["label"], "年付");
}

#[test]
fn what_is_paid_once_is_prorated_since_it_was_bought() {
    let mut h = reconciling();
    h.nodes.push((1, "a".to_string(), false, None));
    h.seed("fx", &fx_record("CNY", NOW));
    let mut rec: Value = serde_json::from_str(&node_record(
        "a",
        100.0,
        "CNY",
        "once",
        Some(&days_from_now(25)),
    ))
    .unwrap();
    rec["purchased_at"] = Value::from(days_from_now(-75));
    h.seed("node:1", &rec.to_string());
    let page = h.page();
    let items = block_of(&page, "stat")["items"].as_array().unwrap();
    assert_eq!(items[1]["value"], "¥0.00");
    assert_eq!(items[2]["value"], "¥25.00");
}

#[test]
fn events_keep_records_in_step() {
    let mut h = reconciling();
    h.tell(Some(NodeEvent::Added { node_id: 8, name: "edge-8".to_string(), created_at: Some(80) }));
    assert_eq!(h.row("node:8")["host_created_at"], 80);
    assert_eq!(h.row("node:8")["billing_cycle"], "yearly");

    h.seed("node:8", &priced("edge-8", 8.0, Some(80)));
    h.tell(Some(NodeEvent::Added { node_id: 8, name: "edge-8".to_string(), created_at: Some(80) }));
    assert_eq!(h.row("node:8")["price"], 8.0);

    h.tell(Some(NodeEvent::Deleted { node_id: 8, created_at: Some(79) }));
    assert!(h.has("node:8"));
    h.tell(Some(NodeEvent::Deleted { node_id: 8, created_at: None }));
    assert!(h.has("node:8"));
    h.tell(Some(NodeEvent::Deleted { node_id: 8, created_at: Some(80) }));
    assert!(!h.has("node:8"));

    h.tell(Some(NodeEvent::Added { node_id: 0, name: "test".to_string(), created_at: Some(1) }));
    assert!(!h.has("node:0"));
    h.tell(Some(NodeEvent::Added { node_id: 8, name: "edge-8".to_string(), created_at: None }));
    assert_eq!(h.row("node:8")["name"], "edge-8");
    assert_eq!(h.row("node:8")["host_created_at"], Value::Null);
    h.tell(None);
    assert!(h.puts.iter().all(|key| key == "node:8"));
}

#[test]
fn a_save_without_an_id_is_refused() {
    let mut h = reconciling();
    let page = h.act(r#"{"action":"save_node"}"#);
    assert_eq!(toast_of(&page), pair("error", "未指定要保存的节点"));
    let page = h.act("not json");
    assert!(page.get("toast").is_none());
    assert!(h.urls.is_empty());
}

#[test]
fn requests_that_leave_out_their_subject_change_nothing() {
    for edition in [Edition::Importing, Edition::Reconciling] {
        let mut h = host(edition);
        h.seed("config", r#"{"target_currency":"CNY","threshold_days":7,"imported":true}"#);
        let before = h.data.clone();
        let saved = h.act(r#"{"action":"save_node","price":1.5}"#);
        let switched = h.act(r#"{"action":"set_currency","value":7}"#);
        match edition {
            Edition::Importing => {
                assert!(saved.get("toast").is_none());
                assert!(switched.get("toast").is_none());
            }
            Edition::Reconciling => {
                assert_eq!(toast_of(&saved), pair("error", "未指定要保存的节点"));
                assert_eq!(toast_of(&switched), pair("success", "已切换币种"));
            }
        }
        assert_eq!(h.data, before);
        assert!(h.urls.is_empty());
    }
}

#[test]
fn an_unreadable_expiry_date_counts_for_no_total() {
    for (expires, named) in [(Some("soon"), false), (None, true)] {
        let mut h = reconciling();
        h.nodes.push((1, "a".to_string(), false, None));
        h.seed("fx", &fx_record("CNY", NOW));
        h.seed("node:1", &node_record("a", 9.0, "XXX", "once", expires));
        let page = h.page();
        let missing = "部分节点币种未在 Frankfurter 汇率表中（XXX），未计入汇总";
        assert_eq!(notice_texts(&page).iter().any(|text| text == missing), named);
    }
}

#[test]
fn an_unknown_currency_stands_behind_its_amounts() {
    let mut h = reconciling();
    h.seed("config", r#"{"target_currency":"PLN"}"#);
    h.seed("fx", &fx_record("PLN", NOW));
    let page = h.page();
    let items = block_of(&page, "stat")["items"].as_array().unwrap();
    assert_eq!(items[1]["value"], "0.00 PLN");
}

#[test]
fn an_empty_expiry_date_clears_it() {
    let mut h = reconciling();
    h.nodes.push((1, "a".to_string(), false, None));
    h.seed("node:1", &node_record("a", 1.0, "USD", "monthly", Some("2027-03-01")));
    h.act(r#"{"action":"save_node","id":1,"expires_at":""}"#);
    assert_eq!(h.row("node:1")["expires_at"], Value::Null);
    assert_eq!(h.row("node:1")["price"], 1.0);
}

#[test]
fn the_first_question_of_each_entry() {
    let mut first: HashMap<&str, Step> = HashMap::new();
    first.insert("tick", on_tick());
    first.insert("page", render_page());
    first.insert("refresh", on_action(Edition::Reconciling, r#"{"action":"refresh_fx"}"#));
    first.insert("sweep", on_cleanup());
    for (name, step) in first {
        assert!(step.effects.is_empty());
        match step.turn {
            Turn::Ask { ask, stage } => match name {
                "tick" => assert!(matches!((ask, stage), (Ask::Config, Stage::TickConfig))),
                "page" => assert!(matches!((ask, stage), (Ask::Config, Stage::PageConfig { .. }))),
                "refresh" => assert!(matches!((ask, stage), (Ask::Config, Stage::Refresh))),
                _ => assert!(matches!((ask, stage), (Ask::Hosts, Stage::SweepHosts))),
            },
            Turn::Done { .. } => panic!("{name} asked for nothing"),
        }
    }
}
