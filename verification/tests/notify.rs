//! The notice plugin end to end: its questions are answered by a host in memory.

use std::collections::HashMap;

use monitor_plugins::notify::{
    advance, fmt_ts, on_event, render, tz_label, tz_offset_secs, Answer, Ask, Event, Hours, Incoming,
    Turn,
};
use serde_json::Value;

const NOW: i64 = 1_800_000_000;

struct Host {
    kv: HashMap<String, String>,
    calls: Vec<(String, Value)>,
    logs: Vec<(i32, String)>,
    reply: i32,
    no_room: bool,
}

fn empty_host() -> Host {
    Host { kv: HashMap::new(), calls: Vec::new(), logs: Vec::new(), reply: 2, no_room: false }
}

fn bare_host() -> Host {
    let mut h = empty_host();
    h.set("bot_token", "t");
    h.set("chat_id", "c");
    h
}

fn text(v: &Value, key: &str) -> Option<String> {
    v.get(key)?.as_str().map(str::to_string)
}

fn whole(v: &Value, key: &str) -> Option<i64> {
    v.get(key)?.as_i64()
}

fn parse(payload: &str) -> Option<Event> {
    let v: Value = serde_json::from_str(payload).ok()?;
    match v.get("type")?.as_str()? {
        "plugin_expiry_soon" => Some(Event::PluginExpirySoon {
            node_id: whole(&v, "node_id")?,
            name: text(&v, "name")?,
            expires_at: text(&v, "expires_at")?,
            days_left: whole(&v, "days_left")?,
            threshold_days: whole(&v, "threshold_days")?,
        }),
        "agent_offline" => Some(Event::AgentOffline {
            node_id: whole(&v, "node_id")?,
            name: text(&v, "name")?,
            observed_at: whole(&v, "observed_at")?,
            last_seen_at: whole(&v, "last_seen_at")?,
        }),
        "agent_online" => Some(Event::AgentOnline {
            node_id: whole(&v, "node_id")?,
            name: text(&v, "name")?,
            observed_at: whole(&v, "observed_at")?,
        }),
        _ => None,
    }
}

fn hours_of(setting: &str) -> Option<Hours> {
    let hours = setting.trim().parse::<f64>().ok()?;
    Some(Hours { bits: hours.to_bits(), seconds: (hours * 3600.0).round() as i32 })
}

impl Host {
    fn set(&mut self, key: &str, value: &str) {
        self.kv.insert(key.to_string(), value.to_string());
    }

    fn setting(&self, key: &str) -> Option<String> {
        self.kv.get(key).cloned()
    }

    fn answer(&mut self, ask: Ask) -> Answer {
        match ask {
            Ask::BotToken => Answer::Setting(self.setting("bot_token")),
            Ask::ChatId => Answer::Setting(self.setting("chat_id")),
            Ask::Offset => {
                let setting = self.setting("tz_offset");
                let hours = setting.as_deref().and_then(hours_of);
                Answer::Offset { setting, hours }
            }
            Ask::Clock => Answer::Clock(NOW),
            Ask::Template { key } => Answer::Setting(self.setting(&key)),
            Ask::Post { url, body } => {
                if self.no_room {
                    return Answer::NoRoom;
                }
                self.calls.push((url, serde_json::from_slice(&body).unwrap()));
                Answer::Posted(self.reply)
            }
        }
    }

    fn tell(&mut self, incoming: Incoming) -> i32 {
        let mut step = on_event(incoming);
        loop {
            for log in step.logs {
                self.logs.push((log.level, log.words));
            }
            match step.turn {
                Turn::Done { code } => return code,
                Turn::Ask { ask, stage } => {
                    let answer = self.answer(ask);
                    step = advance(stage, answer);
                }
            }
        }
    }

    fn send_event(&mut self, payload: &str) -> i32 {
        let incoming = match parse(payload) {
            Some(event) => Incoming::Known(event),
            None => Incoming::Unreadable,
        };
        self.tell(incoming)
    }

    fn last_text(&self) -> String {
        self.calls.last().unwrap().1["text"].as_str().unwrap().to_string()
    }
}

const CASES: [(&str, &str); 3] = [
    (
        r#"{"type":"plugin_expiry_soon","node_id":7,"name":"edge-1","expires_at":"2026-10-01","days_left":7,"threshold_days":7}"#,
        "⏰ 节点 edge-1 将于 2026-10-01 到期（剩 7 天）",
    ),
    (
        r#"{"type":"agent_offline","node_id":5,"name":"edge-1","observed_at":100,"last_seen_at":90}"#,
        "🔴 节点 edge-1 已离线",
    ),
    (
        r#"{"type":"agent_online","node_id":5,"name":"edge-1","observed_at":300}"#,
        "🟢 节点 edge-1 已恢复在线",
    ),
];

#[test]
fn delivers_all_three_events_to_telegram() {
    let mut h = empty_host();
    h.set("bot_token", "123456:TEST-TOKEN");
    h.set("chat_id", "-100200300");
    for (payload, _) in CASES {
        assert_eq!(h.send_event(payload), 0, "{payload}");
    }
    assert_eq!(h.calls.len(), 3);
    for ((url, body), (_, expected)) in h.calls.iter().zip(CASES) {
        assert_eq!(url, "https://api.telegram.org/bot123456:TEST-TOKEN/sendMessage");
        assert!(body.to_string().contains(r#""chat_id":"-100200300""#), "{body}");
        assert!(body.to_string().contains(expected), "{body}");
    }
}

#[test]
fn missing_config_is_reported_without_an_http_call() {
    let mut h = empty_host();
    assert_eq!(h.send_event(CASES[0].0), 2);
    assert!(h.calls.is_empty());

    let mut h = empty_host();
    h.set("bot_token", "123456:TEST-TOKEN");
    assert_eq!(h.send_event(CASES[0].0), 3);
    assert!(h.calls.is_empty());
    assert!(h.logs.iter().any(|(level, words)| *level == 2 && words.contains("chat_id")));
}

#[test]
fn a_broken_payload_returns_an_error_code() {
    let mut h = bare_host();
    assert_eq!(h.send_event("not json"), 1);
    assert!(h.calls.is_empty());
    assert_eq!(h.logs, vec![(3, "tg-notify: 事件载荷不是合法的事件 JSON".to_string())]);
    assert_eq!(h.tell(Incoming::Missing), 1);
    assert_eq!(h.logs.len(), 1);
}

#[test]
fn built_in_text_behaves_exactly_like_the_manifest_default() {
    let cases = [
        (CASES[0].0, "template_expiry_soon", "⏰ 节点 {name} 将于 {expires_at} 到期（剩 {days_left} 天）"),
        (CASES[1].0, "template_agent_offline", "🔴 节点 {name} 已离线（最后上报于 {silent_for} 秒前）"),
        (CASES[2].0, "template_agent_online", "🟢 节点 {name} 已恢复在线"),
    ];
    for (payload, key, default) in cases {
        let mut h = bare_host();
        assert_eq!(h.send_event(payload), 0, "{key}");
        let builtin = h.last_text();

        let mut h = bare_host();
        h.set(key, default);
        assert_eq!(h.send_event(payload), 0, "{key}");
        assert_eq!(h.last_text(), builtin, "{key}");
    }
}

#[test]
fn a_custom_template_is_rendered_with_escaped_values() {
    let mut h = bare_host();
    h.set("template_agent_offline", "<b>{name}</b> 掉了\n已静默 {silent_for} 秒");
    let payload = r#"{"type":"agent_offline","node_id":5,"name":"<script>&\"x","observed_at":1,"last_seen_at":1799999700}"#;
    assert_eq!(h.send_event(payload), 0);
    assert_eq!(h.last_text(), "<b>&lt;script&gt;&amp;&quot;x</b> 掉了\n已静默 300 秒");
    assert_eq!(h.calls.last().unwrap().1["parse_mode"], "HTML");
}

#[test]
fn an_unknown_placeholder_stays_and_warns() {
    let mut h = bare_host();
    h.set("template_agent_online", "{nmae} 上线了");
    assert_eq!(h.send_event(CASES[2].0), 0);
    assert_eq!(h.last_text(), "{nmae} 上线了");
    assert!(h.logs.iter().any(|(level, words)| *level == 2 && words.contains("nmae")));
}

#[test]
fn a_blank_template_falls_back_to_built_in() {
    let mut h = bare_host();
    h.set("template_agent_online", "  \n ");
    assert_eq!(h.send_event(CASES[2].0), 0);
    assert_eq!(h.last_text(), CASES[2].1);
}

#[test]
fn a_failed_post_ends_with_a_code_of_its_own() {
    for n in [-9, -5, -4, -1] {
        let mut h = bare_host();
        h.reply = n;
        assert_eq!(h.send_event(CASES[2].0), 10 - n);
        assert_eq!(h.logs.len(), 1);
        assert!(h.logs[0].1.contains(&format!("宿主错误码 {n}（")));
    }
    let mut h = bare_host();
    h.no_room = true;
    assert_eq!(h.send_event(CASES[2].0), 11);
    assert_eq!(h.logs, vec![(3, "tg-notify: 分配请求缓冲失败".to_string())]);
}

#[test]
fn a_wrong_time_zone_warns_and_means_the_default() {
    let mut h = bare_host();
    h.set("template_agent_online", "{observed_at}");
    h.set("tz_offset", " 15 ");
    assert_eq!(h.send_event(CASES[2].0), 0);
    assert_eq!(h.last_text(), "1970-01-01 08:05 UTC+8");
    assert_eq!(h.logs.len(), 1);
    assert!(h.logs[0].1.contains("「15」"));

    let mut h = bare_host();
    h.set("template_agent_online", "{observed_at}");
    h.set("tz_offset", "-5");
    assert_eq!(h.send_event(CASES[2].0), 0);
    assert_eq!(h.last_text(), "1969-12-31 19:05 UTC-5");
    assert!(h.logs.is_empty());
}

#[test]
fn offsets_in_hours_become_seconds() {
    let some = |s: &str| Some(s.to_string());
    assert_eq!(tz_offset_secs(&None, None), (28800, None));
    assert_eq!(tz_offset_secs(&some("  "), None), (28800, None));
    assert_eq!(tz_offset_secs(&some("5.5"), hours_of("5.5")), (19800, None));
    assert_eq!(tz_offset_secs(&some("-12"), hours_of("-12")), (-43200, None));
    assert_eq!(tz_offset_secs(&some("14"), hours_of("14")), (50400, None));
    assert_eq!(tz_offset_secs(&some("-0"), hours_of("-0")), (0, None));
    for wrong in ["-12.01", "14.5", "NaN", "inf", "-inf", "eight"] {
        let (secs, log) = tz_offset_secs(&some(wrong), hours_of(wrong));
        assert_eq!(secs, 28800, "{wrong}");
        assert!(log.unwrap().contains(wrong), "{wrong}");
    }
}

#[test]
fn moments_carry_the_name_of_their_zone() {
    assert_eq!(tz_label(0), "UTC+0");
    assert_eq!(tz_label(28800), "UTC+8");
    assert_eq!(tz_label(-18000), "UTC-5");
    assert_eq!(tz_label(19800), "UTC+5:30");
    assert_eq!(tz_label(-12600), "UTC-3:30");
    assert_eq!(fmt_ts(1_800_000_000, 28800), "2027-01-15 16:00 UTC+8");
    assert_eq!(fmt_ts(i64::MAX, 28800), "");
    assert_eq!(fmt_ts(i64::MIN, 0), "");
}

#[test]
fn logins_are_told_with_their_origin() {
    let good = Event::LoginSucceeded {
        method: "github".to_string(),
        actor: "a<b".to_string(),
        ip: "::1".to_string(),
        observed_at: 1_800_000_000,
    };
    assert_eq!(
        render(&good, &None, 28800, 0),
        ("✅ 面板登录成功（github）a&lt;b，来自 ::1，时间 2027-01-15 16:00 UTC+8".to_string(), None)
    );
    let bad = Event::LoginFailed {
        method: "password".to_string(),
        reason: "密码错".to_string(),
        ip: "1.2.3.4".to_string(),
        observed_at: 1_800_000_000,
    };
    assert_eq!(
        render(&bad, &None, 0, 0).0,
        "⚠️ 面板登录失败（password），来自 1.2.3.4，时间 2027-01-15 08:00 UTC+0；原因：密码错"
    );
}

#[test]
fn a_clock_set_back_does_not_count_below_zero() {
    let off = Event::AgentOffline {
        node_id: 1,
        name: "n".to_string(),
        observed_at: 0,
        last_seen_at: 100,
    };
    assert_eq!(render(&off, &Some("{silent_for}".to_string()), 0, 97).0, "0");
    assert_eq!(render(&off, &Some("{silent_for}".to_string()), 0, 160).0, "60");
}
