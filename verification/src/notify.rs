//! Telegram notices: what a host event is told as, and the steps of telling it.
use vstd::prelude::*;
use vstd::utf8::decode_utf8;

use crate::calendar::{day_of_second, in_calendar, minute_of_seconds, minute_text};
use crate::json::{holds, names_differ, object_bytes, pairs_view, text_under, write_object};
use crate::template::{
    escape_html, escaped, filled, law_placeholders_are_replaced, law_plain_template_is_kept,
    law_plain_values_are_kept, law_strange_placeholders_are_reported, law_the_first_entry_counts,
    substitute, value_of, vars_view,
};
use crate::text::{
    digits, int_digits, int_text, is_blank, is_space, join, joined, opt_text, push_int, texts, trim,
    trimmed, two_digits,
};

verus! {

/// What the host reports.
pub enum Event {
    PluginExpirySoon {
        node_id: i64,
        name: String,
        expires_at: String,
        days_left: i64,
        threshold_days: i64,
    },
    AgentOffline { node_id: i64, name: String, observed_at: i64, last_seen_at: i64 },
    AgentOnline { node_id: i64, name: String, observed_at: i64 },
    LoginSucceeded { method: String, actor: String, ip: String, observed_at: i64 },
    LoginFailed { method: String, reason: String, ip: String, observed_at: i64 },
}

// ---------------------------------------------------------------------------
// Time zone
// ---------------------------------------------------------------------------

/// The offset of UTC+8, in seconds.
pub const DEFAULT_OFFSET: i32 = 28800;

/// A number of hours read as an IEEE 754 double: its bits, and the seconds that it makes, rounded.
#[derive(Debug, Clone, Copy, PartialEq, Eq, Structural)]
pub struct Hours {
    pub bits: u64,
    pub seconds: i32,
}

impl Hours {
    /// Whether the number lies from -12 to 14. The bits of doubles of one sign are ordered as the
    /// doubles' sizes are.
    pub open spec fn is_offset(self) -> bool {
        self.bits <= 0x402c000000000000 || 0x8000000000000000 <= self.bits <= 0xc028000000000000
    }

    /// Whether the seconds can be those of the hours: 3600 for each, of hours from -12 to 14.
    pub open spec fn plausible(self) -> bool {
        self.is_offset() ==> -43200 <= self.seconds <= 50400
    }
}

/// The offset that a setting gives, in seconds, where `hours` is the number that its trimmed text
/// stands for, if any.
pub open spec fn offset_of(setting: Option<Seq<char>>, hours: Option<Hours>) -> i32 {
    if offset_is_wrong(setting, hours) {
        DEFAULT_OFFSET
    } else {
        match (setting, hours) {
            (Some(s), Some(h)) => if is_blank(s) {
                DEFAULT_OFFSET
            } else {
                h.seconds
            },
            _ => DEFAULT_OFFSET,
        }
    }
}

/// Whether a setting is written but is no offset.
pub open spec fn offset_is_wrong(setting: Option<Seq<char>>, hours: Option<Hours>) -> bool {
    setting matches Some(s) && !is_blank(s) && !(hours matches Some(h) && h.is_offset())
}

/// What is logged of a setting that is no offset.
pub open spec fn offset_complaint(setting: Seq<char>) -> Seq<char> {
    "tg-notify: tz_offset「"@ + trimmed(setting)
        + "」不是合法的时区偏移（-12 到 14 的小时数），按东八区处理"@
}

/// The offset in seconds that a setting gives, and what to log where it is wrong. A missing, blank
/// or wrong setting means UTC+8.
pub fn tz_offset_secs(setting: &Option<String>, hours: Option<Hours>) -> (r: (i32, Option<String>))
    requires
        hours matches Some(h) ==> h.plausible(),
    ensures
        r.0 == offset_of(opt_text(*setting), hours),
        -43200 <= r.0 <= 50400,
        r.1 is Some <==> offset_is_wrong(opt_text(*setting), hours),
        r.1 matches Some(t) ==> t@ == offset_complaint(opt_text(*setting)->0),
{
    match setting {
        None => (DEFAULT_OFFSET, None),
        Some(raw) => {
            proof {
                crate::text::law_blank_trims_to_nothing(raw@);
            }
            let raw = trim(raw.as_str());
            if raw.as_str().is_empty() {
                return (DEFAULT_OFFSET, None);
            }
            if let Some(h) = hours {
                if h.bits <= 0x402c000000000000 || (0x8000000000000000 <= h.bits && h.bits
                    <= 0xc028000000000000) {
                    return (h.seconds, None);
                }
            }
            let mut words = "tg-notify: tz_offset「".to_owned();
            words.append(raw.as_str());
            words.append("」不是合法的时区偏移（-12 到 14 的小时数），按东八区处理");
            (DEFAULT_OFFSET, Some(words))
        },
    }
}

/// The name of an offset: `UTC+8`, `UTC-5`, `UTC+5:30`.
pub open spec fn offset_name(secs: int) -> Seq<char> {
    let size = if secs < 0 {
        -secs
    } else {
        secs
    };
    let sign = if secs < 0 {
        '-'
    } else {
        '+'
    };
    let minutes = size % 3600 / 60;
    "UTC"@ + seq![sign] + digits((size / 3600) as nat) + if minutes == 0 {
        Seq::empty()
    } else {
        seq![':'] + two_digits(minutes)
    }
}

/// The name of an offset: `UTC+8`, `UTC-5`, `UTC+5:30`.
pub fn tz_label(tz_secs: i32) -> (r: String)
    requires
        tz_secs > i32::MIN,
    ensures
        r@ == offset_name(tz_secs as int),
{
    let size: i32 = if tz_secs < 0 {
        -tz_secs
    } else {
        tz_secs
    };
    let mut out = "UTC".to_owned();
    out.push(
        if tz_secs < 0 {
            '-'
        } else {
            '+'
        },
    );
    push_int(&mut out, (size / 3600) as i64);
    let minutes: i32 = size % 3600 / 60;
    if minutes != 0 {
        out.push(':');
        out.push((48 + (minutes / 10) as u8) as char);
        out.push((48 + (minutes % 10) as u8) as char);
    }
    assert(out@ == offset_name(tz_secs as int));
    out
}

/// A moment in a time zone, with the zone's name behind it; empty outside of the calendar.
pub open spec fn stamp(secs: int, offset: int) -> Seq<char> {
    if in_calendar(day_of_second(secs + offset)) {
        minute_text(secs + offset) + " "@ + offset_name(offset)
    } else {
        Seq::empty()
    }
}

/// A moment in a time zone, with the zone's name behind it; empty outside of the calendar.
pub fn fmt_ts(secs: i64, tz_secs: i32) -> (r: String)
    requires
        tz_secs > i32::MIN,
    ensures
        r@ == stamp(secs as int, tz_secs as int),
{
    match secs.checked_add(tz_secs as i64) {
        None => String::new(),
        Some(local) => match minute_of_seconds(local) {
            None => String::new(),
            Some(t) => {
                let mut out = t;
                out.append(" ");
                let label = tz_label(tz_secs);
                out.append(label.as_str());
                out
            },
        },
    }
}

// ---------------------------------------------------------------------------
// Words of a notice
// ---------------------------------------------------------------------------

/// The setting that holds the template for an event.
pub open spec fn template_key(event: Event) -> Seq<char> {
    match event {
        Event::PluginExpirySoon { .. } => "template_expiry_soon"@,
        Event::AgentOffline { .. } => "template_agent_offline"@,
        Event::AgentOnline { .. } => "template_agent_online"@,
        Event::LoginSucceeded { .. } => "template_login_succeeded"@,
        Event::LoginFailed { .. } => "template_login_failed"@,
    }
}

/// The words for an event where no template is set.
pub open spec fn builtin(event: Event) -> Seq<char> {
    match event {
        Event::PluginExpirySoon { .. } =>
        "⏰ 节点 {name} 将于 {expires_at} 到期（剩 {days_left} 天）"@,
        Event::AgentOffline { .. } =>
        "🔴 节点 {name} 已离线（最后上报于 {silent_for} 秒前）"@,
        Event::AgentOnline { .. } => "🟢 节点 {name} 已恢复在线"@,
        Event::LoginSucceeded { .. } =>
        "✅ 面板登录成功（{method}）{actor}，来自 {ip}，时间 {observed_at}"@,
        Event::LoginFailed { .. } =>
        "⚠️ 面板登录失败（{method}），来自 {ip}，时间 {observed_at}；原因：{reason}"@,
    }
}

/// The seconds since a moment as a 64-bit clock gives them, 0 where it lies ahead. A difference
/// that does not fit wraps round.
pub open spec fn seconds_since(now: i64, then: i64) -> int {
    let gap = now.wrapping_sub(then);
    if gap < 0 {
        0
    } else {
        gap as int
    }
}

/// No placeholders at all.
pub open spec fn no_vars() -> Seq<(Seq<char>, Seq<char>)> {
    Seq::empty()
}

/// The placeholders of an event and what they stand for, at a moment and in a time zone.
pub open spec fn placeholders(event: Event, offset: int, now: i64) -> Seq<(Seq<char>, Seq<char>)> {
    match event {
        Event::PluginExpirySoon { node_id, name, expires_at, days_left, threshold_days } =>
        no_vars().push(("node_id"@, int_digits(node_id as int))).push(("name"@, name@)).push(
            ("expires_at"@, expires_at@),
        ).push(("days_left"@, int_digits(days_left as int))).push(
            ("threshold_days"@, int_digits(threshold_days as int)),
        ),
        Event::AgentOffline { node_id, name, observed_at, last_seen_at } => no_vars().push(
            ("node_id"@, int_digits(node_id as int)),
        ).push(("name"@, name@)).push(("observed_at"@, stamp(observed_at as int, offset))).push(
            ("last_seen_at"@, stamp(last_seen_at as int, offset)),
        ).push(("silent_for"@, int_digits(seconds_since(now, last_seen_at)))),
        Event::AgentOnline { node_id, name, observed_at } => no_vars().push(
            ("node_id"@, int_digits(node_id as int)),
        ).push(("name"@, name@)).push(("observed_at"@, stamp(observed_at as int, offset))),
        Event::LoginSucceeded { method, actor, ip, observed_at } => no_vars().push(
            ("method"@, method@),
        ).push(("actor"@, actor@)).push(("ip"@, ip@)).push(
            ("observed_at"@, stamp(observed_at as int, offset)),
        ),
        Event::LoginFailed { method, reason, ip, observed_at } => no_vars().push(
            ("method"@, method@),
        ).push(("reason"@, reason@)).push(("ip"@, ip@)).push(
            ("observed_at"@, stamp(observed_at as int, offset)),
        ),
    }
}

/// A list of placeholders under construction.
struct Vars {
    list: Vec<(String, String)>,
}

impl Vars {
    spec fn seen(&self) -> Seq<(Seq<char>, Seq<char>)> {
        vars_view(self.list@)
    }

    fn new() -> (r: Vars)
        ensures
            r.seen() == no_vars(),
    {
        let r = Vars { list: Vec::new() };
        assert(r.seen() == no_vars());
        r
    }

    fn with(self, name: &str, value: String) -> (r: Vars)
        ensures
            r.seen() == self.seen().push((name@, value@)),
    {
        let mut list = self.list;
        list.push((name.to_owned(), value));
        let r = Vars { list };
        assert(r.seen() == self.seen().push((name@, value@)));
        r
    }
}

/// What a notice of an event is made of: the setting that holds its template, the words without
/// one, and the placeholders.
pub struct Material {
    pub key: String,
    pub builtin: String,
    pub vars: Vec<(String, String)>,
}

/// What a notice of an event is made of, at a moment and in a time zone.
pub fn material(event: &Event, tz_secs: i32, now: i64) -> (r: Material)
    requires
        tz_secs > i32::MIN,
    ensures
        r.key@ == template_key(*event),
        r.builtin@ == builtin(*event),
        vars_view(r.vars@) == placeholders(*event, tz_secs as int, now),
{
    match event {
        Event::PluginExpirySoon { node_id, name, expires_at, days_left, threshold_days } => {
            let vars = Vars::new().with("node_id", int_text(*node_id)).with("name", name.clone())
                .with("expires_at", expires_at.clone()).with("days_left", int_text(*days_left))
                .with("threshold_days", int_text(*threshold_days));
            Material {
                key: "template_expiry_soon".to_owned(),
                builtin:
                    "⏰ 节点 {name} 将于 {expires_at} 到期（剩 {days_left} 天）".to_owned(),
                vars: vars.list,
            }
        },
        Event::AgentOffline { node_id, name, observed_at, last_seen_at } => {
            let gap: i64 = now.wrapping_sub(*last_seen_at);
            let silent_for: i64 = if gap < 0 {
                0
            } else {
                gap
            };
            let vars = Vars::new().with("node_id", int_text(*node_id)).with("name", name.clone())
                .with("observed_at", fmt_ts(*observed_at, tz_secs)).with(
                "last_seen_at",
                fmt_ts(*last_seen_at, tz_secs),
            ).with("silent_for", int_text(silent_for));
            Material {
                key: "template_agent_offline".to_owned(),
                builtin:
                    "🔴 节点 {name} 已离线（最后上报于 {silent_for} 秒前）".to_owned(),
                vars: vars.list,
            }
        },
        Event::AgentOnline { node_id, name, observed_at } => {
            let vars = Vars::new().with("node_id", int_text(*node_id)).with("name", name.clone())
                .with("observed_at", fmt_ts(*observed_at, tz_secs));
            Material {
                key: "template_agent_online".to_owned(),
                builtin: "🟢 节点 {name} 已恢复在线".to_owned(),
                vars: vars.list,
            }
        },
        Event::LoginSucceeded { method, actor, ip, observed_at } => {
            let vars = Vars::new().with("method", method.clone()).with("actor", actor.clone()).with(
                "ip",
                ip.clone(),
            ).with("observed_at", fmt_ts(*observed_at, tz_secs));
            Material {
                key: "template_login_succeeded".to_owned(),
                builtin:
                    "✅ 面板登录成功（{method}）{actor}，来自 {ip}，时间 {observed_at}".to_owned(),
                vars: vars.list,
            }
        },
        Event::LoginFailed { method, reason, ip, observed_at } => {
            let vars = Vars::new().with("method", method.clone()).with(
                "reason",
                reason.clone(),
            ).with("ip", ip.clone()).with("observed_at", fmt_ts(*observed_at, tz_secs));
            Material {
                key: "template_login_failed".to_owned(),
                builtin:
                    "⚠️ 面板登录失败（{method}），来自 {ip}，时间 {observed_at}；原因：{reason}".to_owned(),
                vars: vars.list,
            }
        },
    }
}

/// The template in force: the one that is set, or the built-in words where none is or it is blank.
pub open spec fn template_in_force(event: Event, set: Option<Seq<char>>) -> Seq<char> {
    match set {
        Some(t) => if is_blank(t) {
            builtin(event)
        } else {
            t
        },
        None => builtin(event),
    }
}

/// Placeholders with their values escaped.
pub open spec fn escaped_vars(vars: Seq<(Seq<char>, Seq<char>)>) -> Seq<(Seq<char>, Seq<char>)> {
    vars.map_values(|v: (Seq<char>, Seq<char>)| (v.0, escaped(v.1)))
}

/// The message for an event and the names in its template that it does not know.
pub open spec fn notice(event: Event, set: Option<Seq<char>>, offset: int, now: i64) -> (
    Seq<char>,
    Seq<Seq<char>>,
) {
    filled(template_in_force(event, set), escaped_vars(placeholders(event, offset, now)))
}

/// The names of placeholders.
pub open spec fn var_names(vars: Seq<(Seq<char>, Seq<char>)>) -> Seq<Seq<char>> {
    vars.map_values(|v: (Seq<char>, Seq<char>)| v.0)
}

/// What is logged of names that an event's template uses and the event does not have.
pub open spec fn template_complaint(
    event: Event,
    unknown: Seq<Seq<char>>,
    known: Seq<Seq<char>>,
) -> Seq<
    char,
> {
    "tg-notify: 模板 "@ + template_key(event) + " 里的占位符 "@ + joined(unknown, "、"@)
        + " 认不出，已原样保留；这条事件可用的是 "@ + joined(known, "、"@)
}

fn escape_vars(vars: &Vec<(String, String)>) -> (r: Vec<(String, String)>)
    ensures
        vars_view(r@) == escaped_vars(vars_view(vars@)),
{
    let mut out: Vec<(String, String)> = Vec::new();
    let mut i: usize = 0;
    while i < vars.len()
        invariant
            i <= vars@.len(),
            out@.len() == i,
            forall|k: int|
                0 <= k < i ==> (#[trigger] out@[k]).0@ == vars@[k].0@ && out@[k].1@ == escaped(
                    vars@[k].1@,
                ),
        decreases vars@.len() - i,
    {
        out.push((vars[i].0.clone(), escape_html(vars[i].1.as_str())));
        i += 1;
    }
    assert(vars_view(out@) == escaped_vars(vars_view(vars@)));
    out
}

fn names_of(vars: &Vec<(String, String)>) -> (r: Vec<String>)
    ensures
        texts(r@) == var_names(vars_view(vars@)),
{
    let mut out: Vec<String> = Vec::new();
    let mut i: usize = 0;
    while i < vars.len()
        invariant
            i <= vars@.len(),
            out@.len() == i,
            forall|k: int| 0 <= k < i ==> (#[trigger] out@[k])@ == vars@[k].0@,
        decreases vars@.len() - i,
    {
        out.push(vars[i].0.clone());
        i += 1;
    }
    assert(texts(out@) == var_names(vars_view(vars@)));
    out
}

/// The message for an event, and what to log where its template uses names that the event does not
/// have.
pub fn render(event: &Event, template: &Option<String>, tz_secs: i32, now: i64) -> (r: (
    String,
    Option<String>,
))
    requires
        tz_secs > i32::MIN,
    ensures
        r.0@ == notice(*event, opt_text(*template), tz_secs as int, now).0,
        r.1 is Some <==> notice(*event, opt_text(*template), tz_secs as int, now).1.len() > 0,
        r.1 matches Some(t) ==> t@ == template_complaint(
            *event,
            notice(*event, opt_text(*template), tz_secs as int, now).1,
            var_names(placeholders(*event, tz_secs as int, now)),
        ),
{
    let parts = material(event, tz_secs, now);
    let chosen = match template {
        Some(t) => {
            proof {
                crate::text::law_blank_trims_to_nothing(t@);
            }
            let rest = trim(t.as_str());
            if rest.as_str().is_empty() {
                parts.builtin
            } else {
                t.clone()
            }
        },
        None => parts.builtin,
    };
    let vars = escape_vars(&parts.vars);
    let (words, unknown) = substitute(chosen.as_str(), vars.as_slice());
    if unknown.len() == 0 {
        return (words, None);
    }
    let mut log = "tg-notify: 模板 ".to_owned();
    log.append(parts.key.as_str());
    log.append(" 里的占位符 ");
    let strange = join(&unknown, "、");
    log.append(strange.as_str());
    log.append(" 认不出，已原样保留；这条事件可用的是 ");
    let names = names_of(&parts.vars);
    let known = join(&names, "、");
    log.append(known.as_str());
    (words, Some(log))
}

/// A blank template is no template.
pub proof fn law_blank_template_is_none(event: Event, set: Seq<char>, offset: int, now: i64)
    requires
        is_blank(set),
    ensures
        notice(event, Some(set), offset, now) == notice(event, None, offset, now),
{
}

/// The values that go into a message hold no character that could change its markup.
pub proof fn law_values_are_inert(event: Event, offset: int, now: i64, i: int)
    requires
        0 <= i < escaped_vars(placeholders(event, offset, now)).len(),
    ensures
        !escaped_vars(placeholders(event, offset, now))[i].1.contains('<'),
        !escaped_vars(placeholders(event, offset, now))[i].1.contains('>'),
        !escaped_vars(placeholders(event, offset, now))[i].1.contains('"'),
{
    crate::template::law_escaped_value_is_inert(placeholders(event, offset, now)[i].1);
}

// ---------------------------------------------------------------------------
// The steps of telling an event
// ---------------------------------------------------------------------------

/// A line for the host's log. Level 2 warns, level 3 reports an error.
pub struct Log {
    pub level: i32,
    pub words: String,
}

/// What the host is asked for.
pub enum Ask {
    /// The setting `bot_token`.
    BotToken,
    /// The setting `chat_id`.
    ChatId,
    /// The setting `tz_offset` and the number that it stands for.
    Offset,
    /// The clock.
    Clock,
    /// A setting with a template.
    Template { key: String },
    /// An https POST of a JSON body.
    Post { url: String, body: Vec<u8> },
}

/// What the host answers.
pub enum Answer {
    /// A setting, if it is set.
    Setting(Option<String>),
    /// The setting `tz_offset`, and the number that its trimmed text stands for.
    Offset { setting: Option<String>, hours: Option<Hours> },
    /// The seconds since 1970.
    Clock(i64),
    /// The length of the response, or a negative error code.
    Posted(i32),
    /// There was no room for the request in memory.
    NoRoom,
}

/// What is known while the host is asked.
pub enum Stage {
    Token { event: Event },
    Chat { event: Event, token: String },
    Offset { event: Event, token: String, chat: String },
    Clock { event: Event, token: String, chat: String, tz_secs: i32 },
    Template { event: Event, token: String, chat: String, tz_secs: i32, now: i64 },
    Sent,
}

/// What comes next: a question to the host, or the end with a code.
pub enum Turn {
    Ask { ask: Ask, stage: Stage },
    Done { code: i32 },
}

/// What comes next, and the lines to log before it.
pub struct Step {
    pub logs: Vec<Log>,
    pub turn: Turn,
}

/// What the host hands over as an event.
pub enum Incoming {
    /// No payload at all.
    Missing,
    /// A payload that is no event.
    Unreadable,
    Known(Event),
}

impl Stage {
    /// Whether the time zone that is held is one that `tz_offset_secs` gives.
    pub open spec fn valid(self) -> bool {
        match self {
            Stage::Clock { tz_secs, .. } => -43200 <= tz_secs <= 50400,
            Stage::Template { tz_secs, .. } => -43200 <= tz_secs <= 50400,
            _ => true,
        }
    }

    /// Whether an answer is one to what was asked.
    pub open spec fn takes(self, answer: Answer) -> bool {
        match (self, answer) {
            (Stage::Token { .. }, Answer::Setting(_)) => true,
            (Stage::Chat { .. }, Answer::Setting(_)) => true,
            (Stage::Offset { .. }, Answer::Offset { hours, .. }) => hours matches Some(h)
                ==> h.plausible(),
            (Stage::Clock { .. }, Answer::Clock(_)) => true,
            (Stage::Template { .. }, Answer::Setting(_)) => true,
            (Stage::Sent, Answer::Posted(_)) => true,
            (Stage::Sent, Answer::NoRoom) => true,
            _ => false,
        }
    }
}

/// The lines of a log in the abstract.
pub open spec fn logged(logs: Seq<Log>) -> Seq<(int, Seq<char>)> {
    logs.map_values(|l: Log| (l.level as int, l.words@))
}

/// Nothing to log.
pub open spec fn quiet() -> Seq<(int, Seq<char>)> {
    Seq::empty()
}

/// The code that an error of the host's POST ends with: 10 minus the error's code. A code that
/// does not fit wraps round.
pub open spec fn failure_code(n: i32) -> i32 {
    10i32.wrapping_sub(n)
}

/// What is logged of a failed POST.
pub open spec fn failure_words(n: i32) -> Seq<char> {
    "tg-notify: sendMessage 失败，宿主错误码 "@ + int_digits(n as int)
        + "（-1 越界 -2 非 https -3 非 POST -4 网络 -5 非 2xx -9 私有地址被拒）"@
}

/// Where a bot's messages are sent to.
pub open spec fn send_url(token: Seq<char>) -> Seq<char> {
    "https://api.telegram.org/bot"@ + token + "/sendMessage"@
}

/// The fields of a message.
pub open spec fn message_fields(chat: Seq<char>, words: Seq<char>) -> Seq<(Seq<char>, Seq<char>)> {
    no_vars().push(("chat_id"@, chat)).push(("text"@, words)).push(("parse_mode"@, "HTML"@))
}

/// Whether a step asks for something, logging some lines before it, and what is then known.
pub open spec fn asks(s: Step, logs: Seq<(int, Seq<char>)>, ask: Ask, stage: Stage) -> bool {
    logged(s.logs@) == logs && s.turn == (Turn::Ask { ask, stage })
}

/// Whether a step ends with a code, logging some lines before it.
pub open spec fn ends(s: Step, logs: Seq<(int, Seq<char>)>, code: i32) -> bool {
    logged(s.logs@) == logs && s.turn == (Turn::Done { code })
}

/// Whether a step asks for the template of an event, logging some lines before it, and what is
/// then known.
pub open spec fn asks_template(
    s: Step,
    logs: Seq<(int, Seq<char>)>,
    event: Event,
    token: String,
    chat: String,
    tz_secs: i32,
    now: i64,
) -> bool {
    &&& logged(s.logs@) == logs
    &&& s.turn matches Turn::Ask { ask: Ask::Template { key }, stage }
    &&& key@ == template_key(event)
    &&& stage == (Stage::Template { event, token, chat, tz_secs, now })
}

/// Whether a step sends a message, logging some lines before it.
pub open spec fn posts(
    s: Step,
    logs: Seq<(int, Seq<char>)>,
    token: Seq<char>,
    chat: Seq<char>,
    words: Seq<char>,
) -> bool {
    &&& logged(s.logs@) == logs
    &&& s.turn matches Turn::Ask { ask: Ask::Post { url, body }, stage }
    &&& url@ == send_url(token)
    &&& body@ == object_bytes(message_fields(chat, words))
    &&& holds(decode_utf8(body@), message_fields(chat, words))
    &&& stage == Stage::Sent
}

/// What is logged of an event's template, where it uses names that the event does not have.
pub open spec fn template_warning(
    event: Event,
    set: Option<Seq<char>>,
    offset: int,
    now: i64,
) -> Seq<
    (int, Seq<char>),
> {
    let unknown = notice(event, set, offset, now).1;
    if unknown.len() == 0 {
        quiet()
    } else {
        quiet().push(
            (
                2int,
                template_complaint(event, unknown, var_names(placeholders(event, offset, now))),
            ),
        )
    }
}

/// Whether a step follows from an answer to what a stage asked for.
pub open spec fn follows(stage: Stage, answer: Answer, s: Step) -> bool {
    match (stage, answer) {
        (Stage::Token { event }, Answer::Setting(token)) => match token {
            None => ends(
                s,
                quiet().push(
                    (2int, "tg-notify: kv 里没有 bot_token；请在面板的插件 KV 编辑器里填写"@),
                ),
                2,
            ),
            Some(token) => asks(s, quiet(), Ask::ChatId, Stage::Chat { event, token }),
        },
        (Stage::Chat { event, token }, Answer::Setting(chat)) => match chat {
            None => ends(
                s,
                quiet().push(
                    (2int, "tg-notify: kv 里没有 chat_id；请在面板的插件 KV 编辑器里填写"@),
                ),
                3,
            ),
            Some(chat) => asks(s, quiet(), Ask::Offset, Stage::Offset { event, token, chat }),
        },
        (Stage::Offset { event, token, chat }, Answer::Offset { setting, hours }) => {
            let tz_secs = offset_of(opt_text(setting), hours);
            let logs = if offset_is_wrong(opt_text(setting), hours) {
                quiet().push((2int, offset_complaint(opt_text(setting)->0)))
            } else {
                quiet()
            };
            if event is AgentOffline {
                asks(s, logs, Ask::Clock, Stage::Clock { event, token, chat, tz_secs })
            } else {
                asks_template(s, logs, event, token, chat, tz_secs, 0)
            }
        },
        (Stage::Clock { event, token, chat, tz_secs }, Answer::Clock(now)) => asks_template(
            s,
            quiet(),
            event,
            token,
            chat,
            tz_secs,
            now,
        ),
        (Stage::Template { event, token, chat, tz_secs, now }, Answer::Setting(set)) => posts(
            s,
            template_warning(event, opt_text(set), tz_secs as int, now),
            token@,
            chat@,
            notice(event, opt_text(set), tz_secs as int, now).0,
        ),
        (Stage::Sent, Answer::Posted(n)) => if n < 0 {
            ends(s, quiet().push((3int, failure_words(n))), failure_code(n))
        } else {
            ends(s, quiet(), 0)
        },
        (Stage::Sent, Answer::NoRoom) => ends(
            s,
            quiet().push((3int, "tg-notify: 分配请求缓冲失败"@)),
            11,
        ),
        _ => false,
    }
}

fn no_logs() -> (r: Vec<Log>)
    ensures
        logged(r@) == quiet(),
{
    let r: Vec<Log> = Vec::new();
    assert(logged(r@) == quiet());
    r
}

fn one_log(level: i32, words: String) -> (r: Vec<Log>)
    ensures
        logged(r@) == quiet().push((level as int, words@)),
{
    let mut r: Vec<Log> = Vec::new();
    r.push(Log { level, words });
    assert(logged(r@) == quiet().push((level as int, words@)));
    r
}

fn log_if_any(words: Option<String>) -> (r: Vec<Log>)
    ensures
        words matches Some(w) ==> logged(r@) == quiet().push((2int, w@)),
        words is None ==> logged(r@) == quiet(),
{
    match words {
        Some(w) => one_log(2, w),
        None => no_logs(),
    }
}

fn key_of(event: &Event) -> (r: String)
    ensures
        r@ == template_key(*event),
{
    match event {
        Event::PluginExpirySoon { .. } => "template_expiry_soon".to_owned(),
        Event::AgentOffline { .. } => "template_agent_offline".to_owned(),
        Event::AgentOnline { .. } => "template_agent_online".to_owned(),
        Event::LoginSucceeded { .. } => "template_login_succeeded".to_owned(),
        Event::LoginFailed { .. } => "template_login_failed".to_owned(),
    }
}

/// The message of an event for a chat, and how it is sent.
fn post(token: &String, chat: String, words: String, logs: Vec<Log>) -> (s: Step)
    ensures
        posts(s, logged(logs@), token@, chat@, words@),
{
    let mut url = "https://api.telegram.org/bot".to_owned();
    url.append(token.as_str());
    url.append("/sendMessage");
    let mut fields: Vec<(String, String)> = Vec::new();
    fields.push(("chat_id".to_owned(), chat));
    fields.push(("text".to_owned(), words));
    fields.push(("parse_mode".to_owned(), "HTML".to_owned()));
    assert(pairs_view(fields@) == message_fields(chat@, words@));
    proof {
        reveal_strlit("chat_id");
        reveal_strlit("text");
        reveal_strlit("parse_mode");
        assert("chat_id"@.len() == 7 && "text"@.len() == 4 && "parse_mode"@.len() == 10);
        assert(names_differ(pairs_view(fields@)));
    }
    let body = write_object(fields);
    Step { logs, turn: Turn::Ask { ask: Ask::Post { url, body }, stage: Stage::Sent } }
}

/// Whether a step begins to tell an event.
pub open spec fn begins(incoming: Incoming, s: Step) -> bool {
    match incoming {
        Incoming::Missing => ends(s, quiet(), 1),
        Incoming::Unreadable => ends(
            s,
            quiet().push((3int, "tg-notify: 事件载荷不是合法的事件 JSON"@)),
            1,
        ),
        Incoming::Known(event) => asks(s, quiet(), Ask::BotToken, Stage::Token { event }),
    }
}

/// Begins to tell an event. A payload that is missing or no event ends with code 1.
pub fn on_event(incoming: Incoming) -> (s: Step)
    ensures
        match incoming {
            Incoming::Missing => ends(s, quiet(), 1),
            Incoming::Unreadable => ends(
                s,
                quiet().push((3int, "tg-notify: 事件载荷不是合法的事件 JSON"@)),
                1,
            ),
            Incoming::Known(event) => asks(s, quiet(), Ask::BotToken, Stage::Token { event }),
        },
        begins(incoming, s),
        s.turn matches Turn::Ask { stage, .. } ==> stage.valid(),
{
    match incoming {
        Incoming::Missing => Step { logs: no_logs(), turn: Turn::Done { code: 1 } },
        Incoming::Unreadable => Step {
            logs: one_log(3, "tg-notify: 事件载荷不是合法的事件 JSON".to_owned()),
            turn: Turn::Done { code: 1 },
        },
        Incoming::Known(event) => Step {
            logs: no_logs(),
            turn: Turn::Ask { ask: Ask::BotToken, stage: Stage::Token { event } },
        },
    }
}

/// Goes on with the host's answer to what a stage asked for.
pub fn advance(stage: Stage, answer: Answer) -> (s: Step)
    requires
        stage.valid(),
        stage.takes(answer),
    ensures
        follows(stage, answer, s),
        s.turn matches Turn::Ask { stage: next, .. } ==> next.valid(),
{
    match (stage, answer) {
        (Stage::Token { event }, Answer::Setting(token)) => match token {
            None => Step {
                logs: one_log(
                    2,
                    "tg-notify: kv 里没有 bot_token；请在面板的插件 KV 编辑器里填写".to_owned(),
                ),
                turn: Turn::Done { code: 2 },
            },
            Some(token) => Step {
                logs: no_logs(),
                turn: Turn::Ask { ask: Ask::ChatId, stage: Stage::Chat { event, token } },
            },
        },
        (Stage::Chat { event, token }, Answer::Setting(chat)) => match chat {
            None => Step {
                logs: one_log(
                    2,
                    "tg-notify: kv 里没有 chat_id；请在面板的插件 KV 编辑器里填写".to_owned(),
                ),
                turn: Turn::Done { code: 3 },
            },
            Some(chat) => Step {
                logs: no_logs(),
                turn: Turn::Ask { ask: Ask::Offset, stage: Stage::Offset { event, token, chat } },
            },
        },
        (Stage::Offset { event, token, chat }, Answer::Offset { setting, hours }) => {
            let (tz_secs, warning) = tz_offset_secs(&setting, hours);
            let logs = log_if_any(warning);
            if let Event::AgentOffline { .. } = &event {
                Step {
                    logs,
                    turn: Turn::Ask {
                        ask: Ask::Clock,
                        stage: Stage::Clock { event, token, chat, tz_secs },
                    },
                }
            } else {
                let key = key_of(&event);
                Step {
                    logs,
                    turn: Turn::Ask {
                        ask: Ask::Template { key },
                        stage: Stage::Template { event, token, chat, tz_secs, now: 0 },
                    },
                }
            }
        },
        (Stage::Clock { event, token, chat, tz_secs }, Answer::Clock(now)) => {
            let key = key_of(&event);
            Step {
                logs: no_logs(),
                turn: Turn::Ask {
                    ask: Ask::Template { key },
                    stage: Stage::Template { event, token, chat, tz_secs, now },
                },
            }
        },
        (Stage::Template { event, token, chat, tz_secs, now }, Answer::Setting(set)) => {
            let (words, warning) = render(&event, &set, tz_secs, now);
            let logs = log_if_any(warning);
            post(&token, chat, words, logs)
        },
        (Stage::Sent, Answer::Posted(n)) => if n < 0 {
            let mut words = "tg-notify: sendMessage 失败，宿主错误码 ".to_owned();
            push_int(&mut words, n as i64);
            words.append(
                "（-1 越界 -2 非 https -3 非 POST -4 网络 -5 非 2xx -9 私有地址被拒）",
            );
            Step { logs: one_log(3, words), turn: Turn::Done { code: 10i32.wrapping_sub(n) } }
        } else {
            Step { logs: no_logs(), turn: Turn::Done { code: 0 } }
        },
        (_, _) => Step {
            logs: one_log(3, "tg-notify: 分配请求缓冲失败".to_owned()),
            turn: Turn::Done { code: 11 },
        },
    }
}

/// A message is sent only when the bot's token and the chat are known, goes to them, and holds the
/// words of the event.
pub proof fn law_posts_need_the_channel(stage: Stage, answer: Answer, s: Step)
    requires
        follows(stage, answer, s),
        s.turn matches Turn::Ask { ask: Ask::Post { .. }, .. },
    ensures
        stage is Template,
        s.turn->ask->url@ == send_url(stage->Template_token@),
        text_under(decode_utf8(s.turn->ask->body@), "chat_id"@) == Some(stage->Template_chat@),
        text_under(decode_utf8(s.turn->ask->body@), "parse_mode"@) == Some("HTML"@),
        answer matches Answer::Setting(set) && text_under(
            decode_utf8(s.turn->ask->body@),
            "text"@,
        ) == Some(
            notice(
                stage->Template_event,
                opt_text(set),
                stage->Template_tz_secs as int,
                stage->Template_now,
            ).0,
        ),
{
    if let (Stage::Template { event, chat, tz_secs, now, .. }, Answer::Setting(set)) = (stage, answer) {
        let fields = message_fields(chat@, notice(event, opt_text(set), tz_secs as int, now).0);
        assert(fields[0].0 == "chat_id"@);
        assert(fields[1].0 == "text"@);
        assert(fields[2].0 == "parse_mode"@);
    }
}

/// Success is reported exactly where the host took the message.
pub proof fn law_zero_means_sent(stage: Stage, answer: Answer, s: Step)
    requires
        follows(stage, answer, s),
        s.turn matches Turn::Done { code } && code == 0,
    ensures
        stage == Stage::Sent,
        answer matches Answer::Posted(n) && n >= 0,
{
}

/// The host's error codes from -1 to -9 end with the codes from 11 to 19.
pub proof fn law_failure_codes_stand_apart(n: i32)
    requires
        -9 <= n <= -1,
    ensures
        failure_code(n) == 10 - n,
        11 <= failure_code(n) <= 19,
{
}

/// The place of a stage in the telling of an event, counted from the end.
pub open spec fn place_in_run(stage: Stage) -> nat {
    match stage {
        Stage::Token { .. } => 5,
        Stage::Chat { .. } => 4,
        Stage::Offset { .. } => 3,
        Stage::Clock { .. } => 2,
        Stage::Template { .. } => 1,
        Stage::Sent => 0,
    }
}

/// Telling an event ends: each answer brings it closer to its end, and the answer to a message is
/// the last, so that no event is told twice.
pub proof fn law_every_telling_ends(stage: Stage, answer: Answer, s: Step)
    requires
        follows(stage, answer, s),
    ensures
        s.turn matches Turn::Ask { stage: next, .. } ==> place_in_run(next) < place_in_run(stage),
        stage == Stage::Sent ==> s.turn is Done,
{
}

// ---------------------------------------------------------------------------
// What the words promise
// ---------------------------------------------------------------------------

proof fn lemma_placeholder_names()
    ensures
        "node_id"@.len() == 7,
        "name"@.len() == 4,
        "expires_at"@.len() == 10,
        "days_left"@.len() == 9,
        "threshold_days"@.len() == 14,
        "observed_at"@.len() == 11,
        "last_seen_at"@.len() == 12,
        "silent_for"@.len() == 10,
        "method"@.len() == 6 && "method"@[0] == 'm',
        "actor"@.len() == 5,
        "ip"@.len() == 2,
        "reason"@.len() == 6 && "reason"@[0] == 'r',
{
    reveal_strlit("node_id");
    reveal_strlit("name");
    reveal_strlit("expires_at");
    reveal_strlit("days_left");
    reveal_strlit("threshold_days");
    reveal_strlit("observed_at");
    reveal_strlit("last_seen_at");
    reveal_strlit("silent_for");
    reveal_strlit("method");
    reveal_strlit("actor");
    reveal_strlit("ip");
    reveal_strlit("reason");
}

/// Each placeholder of an event stands for the event's field of the same name: a text as it is, a
/// number in decimal, a moment in the time zone; and how long a node has been silent is the time
/// since it was last seen. No other name stands for anything.
pub proof fn law_placeholders_stand_for_their_fields(event: Event, offset: int, now: i64)
    ensures
        ({
            let vars = placeholders(event, offset, now);
            match event {
                Event::PluginExpirySoon { name, node_id, expires_at, days_left, threshold_days } => {
                    &&& vars.len() == 5
                    &&& value_of(vars, "node_id"@) == Some(int_digits(node_id as int))
                    &&& value_of(vars, "name"@) == Some(name@)
                    &&& value_of(vars, "expires_at"@) == Some(expires_at@)
                    &&& value_of(vars, "days_left"@) == Some(int_digits(days_left as int))
                    &&& value_of(vars, "threshold_days"@) == Some(int_digits(threshold_days as int))
                },
                Event::AgentOffline { node_id, name, observed_at, last_seen_at } => {
                    &&& vars.len() == 5
                    &&& value_of(vars, "node_id"@) == Some(int_digits(node_id as int))
                    &&& value_of(vars, "name"@) == Some(name@)
                    &&& value_of(vars, "observed_at"@) == Some(stamp(observed_at as int, offset))
                    &&& value_of(vars, "last_seen_at"@) == Some(stamp(last_seen_at as int, offset))
                    &&& value_of(vars, "silent_for"@) == Some(int_digits(seconds_since(now, last_seen_at)))
                },
                Event::AgentOnline { node_id, name, observed_at } => {
                    &&& vars.len() == 3
                    &&& value_of(vars, "node_id"@) == Some(int_digits(node_id as int))
                    &&& value_of(vars, "name"@) == Some(name@)
                    &&& value_of(vars, "observed_at"@) == Some(stamp(observed_at as int, offset))
                },
                Event::LoginSucceeded { method, actor, ip, observed_at } => {
                    &&& vars.len() == 4
                    &&& value_of(vars, "method"@) == Some(method@)
                    &&& value_of(vars, "actor"@) == Some(actor@)
                    &&& value_of(vars, "ip"@) == Some(ip@)
                    &&& value_of(vars, "observed_at"@) == Some(stamp(observed_at as int, offset))
                },
                Event::LoginFailed { method, reason, ip, observed_at } => {
                    &&& vars.len() == 4
                    &&& value_of(vars, "method"@) == Some(method@)
                    &&& value_of(vars, "reason"@) == Some(reason@)
                    &&& value_of(vars, "ip"@) == Some(ip@)
                    &&& value_of(vars, "observed_at"@) == Some(stamp(observed_at as int, offset))
                },
            }
        }),
{
    lemma_placeholder_names();
    let vars = placeholders(event, offset, now);
    match event {
        Event::PluginExpirySoon { .. } => {
            law_the_first_entry_counts(vars, "node_id"@, 0);
            law_the_first_entry_counts(vars, "name"@, 1);
            law_the_first_entry_counts(vars, "expires_at"@, 2);
            law_the_first_entry_counts(vars, "days_left"@, 3);
            law_the_first_entry_counts(vars, "threshold_days"@, 4);
        },
        Event::AgentOffline { .. } => {
            law_the_first_entry_counts(vars, "node_id"@, 0);
            law_the_first_entry_counts(vars, "name"@, 1);
            law_the_first_entry_counts(vars, "observed_at"@, 2);
            law_the_first_entry_counts(vars, "last_seen_at"@, 3);
            law_the_first_entry_counts(vars, "silent_for"@, 4);
        },
        Event::AgentOnline { .. } => {
            law_the_first_entry_counts(vars, "node_id"@, 0);
            law_the_first_entry_counts(vars, "name"@, 1);
            law_the_first_entry_counts(vars, "observed_at"@, 2);
        },
        Event::LoginSucceeded { .. } => {
            law_the_first_entry_counts(vars, "method"@, 0);
            law_the_first_entry_counts(vars, "actor"@, 1);
            law_the_first_entry_counts(vars, "ip"@, 2);
            law_the_first_entry_counts(vars, "observed_at"@, 3);
        },
        Event::LoginFailed { .. } => {
            law_the_first_entry_counts(vars, "method"@, 0);
            law_the_first_entry_counts(vars, "reason"@, 1);
            law_the_first_entry_counts(vars, "ip"@, 2);
            law_the_first_entry_counts(vars, "observed_at"@, 3);
        },
    }
}

/// A name that stands for something in an event stands for the same in its message, with the
/// characters of markup escaped.
pub proof fn law_values_are_escaped(vars: Seq<(Seq<char>, Seq<char>)>, name: Seq<char>)
    ensures
        value_of(escaped_vars(vars), name) == match value_of(vars, name) {
            Some(value) => Some(escaped(value)),
            None => None,
        },
    decreases vars.len(),
{
    if vars.len() > 0 {
        law_values_are_escaped(vars.drop_first(), name);
        assert(escaped_vars(vars).drop_first() == escaped_vars(vars.drop_first()));
    }
}

/// The time since a moment is the difference of the two clock readings, and nothing where the
/// moment lies ahead. A difference that does not fit into 64 bits wraps round.
pub proof fn law_seconds_since(now: i64, then: i64)
    ensures
        i64::MIN <= now - then <= i64::MAX ==> seconds_since(now, then) == if now >= then {
            now - then
        } else {
            0
        },
        now - then > i64::MAX ==> seconds_since(now, then) == 0,
        now - then < i64::MIN ==> seconds_since(now, then) == now - then + 0x1_0000_0000_0000_0000,
{
}

proof fn lemma_digits_are_plain(n: int)
    ensures
        escaped(int_digits(n)) == int_digits(n),
{
    let s = int_digits(n);
    let size = if n < 0 {
        (-n) as nat
    } else {
        n as nat
    };
    if size > 0 {
        crate::text::law_decimal_digits(size, 0);
    }
    assert forall|i: int| 0 <= i < s.len() implies #[trigger] s[i] == '-' || '0' <= s[i]
        <= '9' by {
        if n < 0 && i > 0 {
            assert(s[i] == digits(size)[i - 1]);
        } else if n > 0 {
            assert(s[i] == digits(size)[i]);
        }
    }
    law_plain_values_are_kept(s);
}

#[verifier::spinoff_prover]
#[verifier::rlimit(40)]
proof fn lemma_expiry_words(event: Event, offset: int, now: i64)
    requires
        event is PluginExpirySoon,
    ensures
        event matches Event::PluginExpirySoon { node_id, name, expires_at, days_left, threshold_days } &&
            notice(event, None, offset, now) == (
            "⏰ 节点 "@ + escaped(name@) + " 将于 "@ + escaped(expires_at@) + " 到期（剩 "@
                + int_digits(days_left as int) + " 天）"@,
            Seq::<Seq<char>>::empty(),
        ),
{
    let vars = placeholders(event, offset, now);
    let safe = escaped_vars(vars);
    law_placeholders_stand_for_their_fields(event, offset, now);
    law_values_are_escaped(vars, "name"@);
    law_values_are_escaped(vars, "expires_at"@);
    law_values_are_escaped(vars, "days_left"@);
    if let Event::PluginExpirySoon { node_id, name, expires_at, days_left, threshold_days } = event {
        lemma_digits_are_plain(days_left as int);
        let r3 = " 天）"@;
        let r2 = " 到期（剩 "@ + seq!['{'] + "days_left"@ + seq!['}'] + r3;
        let r1 = " 将于 "@ + seq!['{'] + "expires_at"@ + seq!['}'] + r2;
        let r0 = "⏰ 节点 "@ + seq!['{'] + "name"@ + seq!['}'] + r1;
        assert(builtin(event) == r0) by {
            reveal_strlit("⏰ 节点 {name} 将于 {expires_at} 到期（剩 {days_left} 天）");
            reveal_strlit("⏰ 节点 ");
            reveal_strlit(" 将于 ");
            reveal_strlit(" 到期（剩 ");
            reveal_strlit(" 天）");
            reveal_strlit("name");
            reveal_strlit("expires_at");
            reveal_strlit("days_left");
        }
        assert(!"⏰ 节点 "@.contains('{')) by {
            reveal_strlit("⏰ 节点 ");
        }
        assert(!" 将于 "@.contains('{')) by {
            reveal_strlit(" 将于 ");
        }
        assert(!" 到期（剩 "@.contains('{')) by {
            reveal_strlit(" 到期（剩 ");
        }
        assert(!" 天）"@.contains('{')) by {
            reveal_strlit(" 天）");
        }
        assert(!"name"@.contains('}')) by {
            reveal_strlit("name");
        }
        assert(!"expires_at"@.contains('}')) by {
            reveal_strlit("expires_at");
        }
        assert(!"days_left"@.contains('}')) by {
            reveal_strlit("days_left");
        }
        law_plain_template_is_kept(r3, safe);
        law_placeholders_are_replaced(
            " 到期（剩 "@,
            "days_left"@,
            int_digits(days_left as int),
            r3,
            safe,
        );
        law_placeholders_are_replaced(" 将于 "@, "expires_at"@, escaped(expires_at@), r2, safe);
        law_placeholders_are_replaced("⏰ 节点 "@, "name"@, escaped(name@), r1, safe);
        assert(filled(r0, safe).0 == "⏰ 节点 "@ + escaped(name@) + " 将于 "@ + escaped(expires_at@)
            + " 到期（剩 "@ + int_digits(days_left as int) + " 天）"@);
    }
}

#[verifier::spinoff_prover]
#[verifier::rlimit(40)]
proof fn lemma_offline_words(event: Event, offset: int, now: i64)
    requires
        event is AgentOffline,
    ensures
        event matches Event::AgentOffline { node_id, name, observed_at, last_seen_at } &&
            notice(event, None, offset, now) == (
            "🔴 节点 "@ + escaped(name@) + " 已离线（最后上报于 "@
                + int_digits(seconds_since(now, last_seen_at)) + " 秒前）"@,
            Seq::<Seq<char>>::empty(),
        ),
{
    let vars = placeholders(event, offset, now);
    let safe = escaped_vars(vars);
    law_placeholders_stand_for_their_fields(event, offset, now);
    law_values_are_escaped(vars, "name"@);
    law_values_are_escaped(vars, "silent_for"@);
    if let Event::AgentOffline { node_id, name, observed_at, last_seen_at } = event {
        lemma_digits_are_plain(seconds_since(now, last_seen_at));
        let r2 = " 秒前）"@;
        let r1 = " 已离线（最后上报于 "@ + seq!['{'] + "silent_for"@ + seq!['}'] + r2;
        let r0 = "🔴 节点 "@ + seq!['{'] + "name"@ + seq!['}'] + r1;
        assert(builtin(event) == r0) by {
            reveal_strlit("🔴 节点 {name} 已离线（最后上报于 {silent_for} 秒前）");
            reveal_strlit("🔴 节点 ");
            reveal_strlit(" 已离线（最后上报于 ");
            reveal_strlit(" 秒前）");
            reveal_strlit("name");
            reveal_strlit("silent_for");
        }
        assert(!"🔴 节点 "@.contains('{')) by {
            reveal_strlit("🔴 节点 ");
        }
        assert(!" 已离线（最后上报于 "@.contains('{')) by {
            reveal_strlit(" 已离线（最后上报于 ");
        }
        assert(!" 秒前）"@.contains('{')) by {
            reveal_strlit(" 秒前）");
        }
        assert(!"name"@.contains('}')) by {
            reveal_strlit("name");
        }
        assert(!"silent_for"@.contains('}')) by {
            reveal_strlit("silent_for");
        }
        law_plain_template_is_kept(r2, safe);
        law_placeholders_are_replaced(
            " 已离线（最后上报于 "@,
            "silent_for"@,
            int_digits(seconds_since(now, last_seen_at)),
            r2,
            safe,
        );
        law_placeholders_are_replaced("🔴 节点 "@, "name"@, escaped(name@), r1, safe);
        assert(filled(r0, safe).0 == "🔴 节点 "@ + escaped(name@) + " 已离线（最后上报于 "@
            + int_digits(seconds_since(now, last_seen_at)) + " 秒前）"@);
    }
}

#[verifier::spinoff_prover]
#[verifier::rlimit(40)]
proof fn lemma_online_words(event: Event, offset: int, now: i64)
    requires
        event is AgentOnline,
    ensures
        event matches Event::AgentOnline { node_id, name, observed_at } &&
            notice(event, None, offset, now) == (
            "🟢 节点 "@ + escaped(name@) + " 已恢复在线"@,
            Seq::<Seq<char>>::empty(),
        ),
{
    let vars = placeholders(event, offset, now);
    let safe = escaped_vars(vars);
    law_placeholders_stand_for_their_fields(event, offset, now);
    law_values_are_escaped(vars, "name"@);
    if let Event::AgentOnline { node_id, name, observed_at } = event {
        let r1 = " 已恢复在线"@;
        let r0 = "🟢 节点 "@ + seq!['{'] + "name"@ + seq!['}'] + r1;
        assert(builtin(event) == r0) by {
            reveal_strlit("🟢 节点 {name} 已恢复在线");
            reveal_strlit("🟢 节点 ");
            reveal_strlit(" 已恢复在线");
            reveal_strlit("name");
        }
        assert(!"🟢 节点 "@.contains('{')) by {
            reveal_strlit("🟢 节点 ");
        }
        assert(!" 已恢复在线"@.contains('{')) by {
            reveal_strlit(" 已恢复在线");
        }
        assert(!"name"@.contains('}')) by {
            reveal_strlit("name");
        }
        law_plain_template_is_kept(r1, safe);
        law_placeholders_are_replaced("🟢 节点 "@, "name"@, escaped(name@), r1, safe);
        assert(filled(r0, safe).0 == "🟢 节点 "@ + escaped(name@) + " 已恢复在线"@);
    }
}

#[verifier::spinoff_prover]
#[verifier::rlimit(40)]
proof fn lemma_login_words(event: Event, offset: int, now: i64)
    requires
        event is LoginSucceeded,
    ensures
        event matches Event::LoginSucceeded { method, actor, ip, observed_at } &&
            notice(event, None, offset, now) == (
            "✅ 面板登录成功（"@ + escaped(method@) + "）"@ + escaped(actor@) + "，来自 "@ + escaped(ip@)
                + "，时间 "@ + escaped(stamp(observed_at as int, offset)),
            Seq::<Seq<char>>::empty(),
        ),
{
    let vars = placeholders(event, offset, now);
    let safe = escaped_vars(vars);
    law_placeholders_stand_for_their_fields(event, offset, now);
    law_values_are_escaped(vars, "method"@);
    law_values_are_escaped(vars, "actor"@);
    law_values_are_escaped(vars, "ip"@);
    law_values_are_escaped(vars, "observed_at"@);
    if let Event::LoginSucceeded { method, actor, ip, observed_at } = event {
        let r4 = ""@;
        let r3 = "，时间 "@ + seq!['{'] + "observed_at"@ + seq!['}'] + r4;
        let r2 = "，来自 "@ + seq!['{'] + "ip"@ + seq!['}'] + r3;
        let r1 = "）"@ + seq!['{'] + "actor"@ + seq!['}'] + r2;
        let r0 = "✅ 面板登录成功（"@ + seq!['{'] + "method"@ + seq!['}'] + r1;
        assert(builtin(event) == r0) by {
            reveal_strlit("✅ 面板登录成功（{method}）{actor}，来自 {ip}，时间 {observed_at}");
            reveal_strlit("✅ 面板登录成功（");
            reveal_strlit("）");
            reveal_strlit("，来自 ");
            reveal_strlit("，时间 ");
            reveal_strlit("");
            reveal_strlit("method");
            reveal_strlit("actor");
            reveal_strlit("ip");
            reveal_strlit("observed_at");
        }
        assert(!"✅ 面板登录成功（"@.contains('{')) by {
            reveal_strlit("✅ 面板登录成功（");
        }
        assert(!"）"@.contains('{')) by {
            reveal_strlit("）");
        }
        assert(!"，来自 "@.contains('{')) by {
            reveal_strlit("，来自 ");
        }
        assert(!"，时间 "@.contains('{')) by {
            reveal_strlit("，时间 ");
        }
        assert(!""@.contains('{')) by {
            reveal_strlit("");
        }
        assert(!"method"@.contains('}')) by {
            reveal_strlit("method");
        }
        assert(!"actor"@.contains('}')) by {
            reveal_strlit("actor");
        }
        assert(!"ip"@.contains('}')) by {
            reveal_strlit("ip");
        }
        assert(!"observed_at"@.contains('}')) by {
            reveal_strlit("observed_at");
        }
        law_plain_template_is_kept(r4, safe);
        law_placeholders_are_replaced(
            "，时间 "@,
            "observed_at"@,
            escaped(stamp(observed_at as int, offset)),
            r4,
            safe,
        );
        law_placeholders_are_replaced("，来自 "@, "ip"@, escaped(ip@), r3, safe);
        law_placeholders_are_replaced("）"@, "actor"@, escaped(actor@), r2, safe);
        law_placeholders_are_replaced("✅ 面板登录成功（"@, "method"@, escaped(method@), r1, safe);
        assert(""@ == Seq::<char>::empty()) by {
            reveal_strlit("");
        }
        assert(filled(r0, safe).0 == "✅ 面板登录成功（"@ + escaped(method@) + "）"@ + escaped(actor@)
            + "，来自 "@ + escaped(ip@) + "，时间 "@ + escaped(stamp(observed_at as int, offset)));
    }
}

#[verifier::spinoff_prover]
#[verifier::rlimit(40)]
proof fn lemma_refused_login_words(event: Event, offset: int, now: i64)
    requires
        event is LoginFailed,
    ensures
        event matches Event::LoginFailed { method, reason, ip, observed_at } &&
            notice(event, None, offset, now) == (
            "⚠️ 面板登录失败（"@ + escaped(method@) + "），来自 "@ + escaped(ip@) + "，时间 "@
                + escaped(stamp(observed_at as int, offset)) + "；原因："@ + escaped(reason@),
            Seq::<Seq<char>>::empty(),
        ),
{
    let vars = placeholders(event, offset, now);
    let safe = escaped_vars(vars);
    law_placeholders_stand_for_their_fields(event, offset, now);
    law_values_are_escaped(vars, "method"@);
    law_values_are_escaped(vars, "ip"@);
    law_values_are_escaped(vars, "observed_at"@);
    law_values_are_escaped(vars, "reason"@);
    if let Event::LoginFailed { method, reason, ip, observed_at } = event {
        let r4 = ""@;
        let r3 = "；原因："@ + seq!['{'] + "reason"@ + seq!['}'] + r4;
        let r2 = "，时间 "@ + seq!['{'] + "observed_at"@ + seq!['}'] + r3;
        let r1 = "），来自 "@ + seq!['{'] + "ip"@ + seq!['}'] + r2;
        let r0 = "⚠️ 面板登录失败（"@ + seq!['{'] + "method"@ + seq!['}'] + r1;
        assert(builtin(event) == r0) by {
            reveal_strlit("⚠️ 面板登录失败（{method}），来自 {ip}，时间 {observed_at}；原因：{reason}");
            reveal_strlit("⚠️ 面板登录失败（");
            reveal_strlit("），来自 ");
            reveal_strlit("，时间 ");
            reveal_strlit("；原因：");
            reveal_strlit("");
            reveal_strlit("method");
            reveal_strlit("ip");
            reveal_strlit("observed_at");
            reveal_strlit("reason");
        }
        assert(!"⚠️ 面板登录失败（"@.contains('{')) by {
            reveal_strlit("⚠️ 面板登录失败（");
        }
        assert(!"），来自 "@.contains('{')) by {
            reveal_strlit("），来自 ");
        }
        assert(!"，时间 "@.contains('{')) by {
            reveal_strlit("，时间 ");
        }
        assert(!"；原因："@.contains('{')) by {
            reveal_strlit("；原因：");
        }
        assert(!""@.contains('{')) by {
            reveal_strlit("");
        }
        assert(!"method"@.contains('}')) by {
            reveal_strlit("method");
        }
        assert(!"ip"@.contains('}')) by {
            reveal_strlit("ip");
        }
        assert(!"observed_at"@.contains('}')) by {
            reveal_strlit("observed_at");
        }
        assert(!"reason"@.contains('}')) by {
            reveal_strlit("reason");
        }
        law_plain_template_is_kept(r4, safe);
        law_placeholders_are_replaced("；原因："@, "reason"@, escaped(reason@), r4, safe);
        law_placeholders_are_replaced(
            "，时间 "@,
            "observed_at"@,
            escaped(stamp(observed_at as int, offset)),
            r3,
            safe,
        );
        law_placeholders_are_replaced("），来自 "@, "ip"@, escaped(ip@), r2, safe);
        law_placeholders_are_replaced("⚠️ 面板登录失败（"@, "method"@, escaped(method@), r1, safe);
        assert(""@ == Seq::<char>::empty()) by {
            reveal_strlit("");
        }
        assert(filled(r0, safe).0 == "⚠️ 面板登录失败（"@ + escaped(method@) + "），来自 "@ + escaped(ip@)
            + "，时间 "@ + escaped(stamp(observed_at as int, offset)) + "；原因："@ + escaped(reason@));
    }
}

/// The built-in words tell an event by its own fields, and use no name that the event does not
/// have.
pub proof fn law_the_built_in_words_tell_the_event(event: Event, offset: int, now: i64)
    ensures
        notice(event, None, offset, now).1.len() == 0,
        notice(event, None, offset, now).0 == match event {
            Event::PluginExpirySoon { node_id, name, expires_at, days_left, threshold_days } => "⏰ 节点 "@
                + escaped(name@) + " 将于 "@ + escaped(expires_at@) + " 到期（剩 "@
                + int_digits(days_left as int) + " 天）"@,
            Event::AgentOffline { node_id, name, observed_at, last_seen_at } => "🔴 节点 "@
                + escaped(name@) + " 已离线（最后上报于 "@ + int_digits(seconds_since(now, last_seen_at))
                + " 秒前）"@,
            Event::AgentOnline { node_id, name, observed_at } => "🟢 节点 "@
                + escaped(name@) + " 已恢复在线"@,
            Event::LoginSucceeded { method, actor, ip, observed_at } => "✅ 面板登录成功（"@
                + escaped(method@) + "）"@ + escaped(actor@) + "，来自 "@ + escaped(ip@) + "，时间 "@
                + escaped(stamp(observed_at as int, offset)),
            Event::LoginFailed { method, reason, ip, observed_at } => "⚠️ 面板登录失败（"@
                + escaped(method@) + "），来自 "@ + escaped(ip@) + "，时间 "@
                + escaped(stamp(observed_at as int, offset)) + "；原因："@ + escaped(reason@),
        },
{
    match event {
        Event::PluginExpirySoon { .. } => lemma_expiry_words(event, offset, now),
        Event::AgentOffline { .. } => lemma_offline_words(event, offset, now),
        Event::AgentOnline { .. } => lemma_online_words(event, offset, now),
        Event::LoginSucceeded { .. } => lemma_login_words(event, offset, now),
        Event::LoginFailed { .. } => lemma_refused_login_words(event, offset, now),
    }
}

/// Two expiry events that differ in the days left alone are told in different messages, and two
/// that differ in the threshold alone in the same one.
pub proof fn law_the_days_left_are_told(
    node_id: i64,
    name: String,
    expires_at: String,
    m: i64,
    n: i64,
    offset: int,
    now: i64,
)
    requires
        m != n,
    ensures
        forall|t: i64|
            notice(
                (Event::PluginExpirySoon {
                    node_id,
                    name,
                    expires_at,
                    days_left: m,
                    threshold_days: t,
                }),
                None,
                offset,
                now,
            ).0 != #[trigger] notice(
                (Event::PluginExpirySoon {
                    node_id,
                    name,
                    expires_at,
                    days_left: n,
                    threshold_days: t,
                }),
                None,
                offset,
                now,
            ).0,
        forall|d: i64|
            notice(
                (Event::PluginExpirySoon {
                    node_id,
                    name,
                    expires_at,
                    days_left: d,
                    threshold_days: m,
                }),
                None,
                offset,
                now,
            ) == #[trigger] notice(
                (Event::PluginExpirySoon {
                    node_id,
                    name,
                    expires_at,
                    days_left: d,
                    threshold_days: n,
                }),
                None,
                offset,
                now,
            ),
{
    crate::text::law_numbers_are_written_apart(m, n);
    let start = "⏰ 节点 "@ + escaped(name@) + " 将于 "@ + escaped(expires_at@) + " 到期（剩 "@;
    let end = " 天）"@;
    assert forall|t: i64|
        notice(
            (Event::PluginExpirySoon {
                node_id,
                name,
                expires_at,
                days_left: m,
                threshold_days: t,
            }),
            None,
            offset,
            now,
        ).0 != #[trigger] notice(
            (Event::PluginExpirySoon {
                node_id,
                name,
                expires_at,
                days_left: n,
                threshold_days: t,
            }),
            None,
            offset,
            now,
        ).0 by {
        let a = Event::PluginExpirySoon {
            node_id,
            name,
            expires_at,
            days_left: m,
            threshold_days: t,
        };
        let b = Event::PluginExpirySoon {
            node_id,
            name,
            expires_at,
            days_left: n,
            threshold_days: t,
        };
        lemma_expiry_words(a, offset, now);
        lemma_expiry_words(b, offset, now);
        let p = start + int_digits(m as int) + end;
        let q = start + int_digits(n as int) + end;
        if p == q {
            assert(p.subrange(start.len() as int, p.len() - end.len()) == int_digits(m as int));
            assert(q.subrange(start.len() as int, q.len() - end.len()) == int_digits(n as int));
        }
    }
    assert forall|d: i64|
        notice(
            (Event::PluginExpirySoon {
                node_id,
                name,
                expires_at,
                days_left: d,
                threshold_days: m,
            }),
            None,
            offset,
            now,
        ) == #[trigger] notice(
            (Event::PluginExpirySoon {
                node_id,
                name,
                expires_at,
                days_left: d,
                threshold_days: n,
            }),
            None,
            offset,
            now,
        ) by {
        let a = Event::PluginExpirySoon {
            node_id,
            name,
            expires_at,
            days_left: d,
            threshold_days: m,
        };
        let b = Event::PluginExpirySoon {
            node_id,
            name,
            expires_at,
            days_left: d,
            threshold_days: n,
        };
        lemma_expiry_words(a, offset, now);
        lemma_expiry_words(b, offset, now);
    }
}

/// A template that is set is used as it is written: each placeholder in it gives way to what the
/// event has under that name, escaped, and the text before it stays.
pub proof fn law_a_set_template_is_filled(
    event: Event,
    before: Seq<char>,
    name: Seq<char>,
    behind: Seq<char>,
    offset: int,
    now: i64,
)
    requires
        !before.contains('{'),
        !name.contains('}'),
        !behind.contains('{'),
    ensures
        ({
            let set = before + seq!['{'] + name + seq!['}'] + behind;
            match value_of(placeholders(event, offset, now), name) {
                Some(value) => notice(event, Some(set), offset, now) == (
                    before + escaped(value) + behind,
                    Seq::<Seq<char>>::empty(),
                ),
                None => notice(event, Some(set), offset, now) == (set, seq![name]),
            }
        }),
{
    let set = before + seq!['{'] + name + seq!['}'] + behind;
    let vars = placeholders(event, offset, now);
    law_values_are_escaped(vars, name);
    assert(set[before.len() as int] == '{');
    assert(!is_blank(set)) by {
        assert(!is_space('{'));
    }
    law_plain_template_is_kept(behind, escaped_vars(vars));
    match value_of(vars, name) {
        Some(value) => {
            law_placeholders_are_replaced(
                before,
                name,
                escaped(value),
                behind,
                escaped_vars(vars),
            );
        },
        None => {
            law_strange_placeholders_are_reported(before, name, behind, escaped_vars(vars));
            assert(seq![name] + Seq::<Seq<char>>::empty() == seq![name]);
        },
    }
}

/// A template that is set and not blank is filled with what the event has, and the built-in words
/// are used only without one.
pub proof fn law_set_templates_come_first(event: Event, set: Seq<char>, offset: int, now: i64)
    ensures
        !is_blank(set) ==> notice(event, Some(set), offset, now) == filled(
            set,
            escaped_vars(placeholders(event, offset, now)),
        ),
{
}

/// A template without placeholders that is not blank is the message, whatever the event.
pub proof fn law_a_set_template_is_used(event: Event, set: Seq<char>, offset: int, now: i64)
    requires
        !set.contains('{'),
        !is_blank(set),
    ensures
        notice(event, Some(set), offset, now) == (set, Seq::<Seq<char>>::empty()),
{
    law_plain_template_is_kept(set, escaped_vars(placeholders(event, offset, now)));
}

/// Every kind of event has a template of its own, under its own setting.
pub proof fn law_templates_have_their_settings(event: Event)
    ensures
        event is PluginExpirySoon ==> template_key(event) == "template_expiry_soon"@,
        event is AgentOffline ==> template_key(event) == "template_agent_offline"@,
        event is AgentOnline ==> template_key(event) == "template_agent_online"@,
        event is LoginSucceeded ==> template_key(event) == "template_login_succeeded"@,
        event is LoginFailed ==> template_key(event) == "template_login_failed"@,
{
}

/// What is logged of strange names tells the template's setting, the names, and those that the
/// event has.
pub proof fn law_strange_names_are_logged(
    event: Event,
    set: Option<Seq<char>>,
    offset: int,
    now: i64,
)
    ensures
        notice(event, set, offset, now).1.len() == 0 ==> template_warning(
            event,
            set,
            offset,
            now,
        ).len() == 0,
        notice(event, set, offset, now).1.len() > 0 ==> template_warning(event, set, offset, now)
            == seq![
            (
                2int,
                "tg-notify: 模板 "@ + template_key(event) + " 里的占位符 "@ + joined(
                    notice(event, set, offset, now).1,
                    "、"@,
                ) + " 认不出，已原样保留；这条事件可用的是 "@ + joined(
                    Seq::new(
                        placeholders(event, offset, now).len(),
                        |i: int| placeholders(event, offset, now)[i].0,
                    ),
                    "、"@,
                ),
            ),
        ],
{
    let vars = placeholders(event, offset, now);
    assert(var_names(vars) == Seq::new(vars.len(), |i: int| vars[i].0));
}

// ---------------------------------------------------------------------------
// What the time zone and the channel promise
// ---------------------------------------------------------------------------

/// An offset is named by its hours and, where it has some, its minutes; the sign says which side
/// of UTC it lies on.
pub proof fn law_offsets_are_named(hours: int, minutes: int, seconds: int)
    requires
        0 <= hours,
        0 <= minutes < 60,
        0 <= seconds < 60,
    ensures
        ({
            let size = 3600 * hours + 60 * minutes + seconds;
            let name = digits(hours as nat) + if minutes == 0 {
                Seq::empty()
            } else {
                seq![':'] + two_digits(minutes)
            };
            &&& offset_name(size) == "UTC"@ + seq!['+'] + name
            &&& size > 0 ==> offset_name(-size) == "UTC"@ + seq!['-'] + name
        }),
{
    let size = 3600 * hours + 60 * minutes + seconds;
    assert(size / 3600 == hours && size % 3600 == 60 * minutes + seconds) by (nonlinear_arith)
        requires
            size == 3600 * hours + 60 * minutes + seconds,
            0 <= minutes < 60,
            0 <= seconds < 60,
    ;
    assert((60 * minutes + seconds) / 60 == minutes);
    let tail = if minutes == 0 {
        Seq::empty()
    } else {
        seq![':'] + two_digits(minutes)
    };
    assert("UTC"@ + seq!['+'] + digits(hours as nat) + tail == "UTC"@ + seq!['+'] + (digits(
        hours as nat,
    ) + tail));
    assert("UTC"@ + seq!['-'] + digits(hours as nat) + tail == "UTC"@ + seq!['-'] + (digits(
        hours as nat,
    ) + tail));
}

/// A moment is told as the clock on the wall in the time zone shows it: as UTC shows the moment that
/// is the offset later, with the name of the zone behind it. Outside of the calendar nothing is told.
pub proof fn law_moments_are_told_in_their_zone(secs: int, offset: int)
    ensures
        in_calendar(day_of_second(secs + offset)) ==> stamp(secs, offset) == minute_text(
            secs + offset,
        ) + " "@ + offset_name(offset),
        !in_calendar(day_of_second(secs + offset)) ==> stamp(secs, offset).len() == 0,
{
}

/// The time zone is that of the setting, where that is a number of hours from -12 to 14, and UTC+8
/// everywhere else. It is called wrong exactly where it is written and is no such number.
pub proof fn law_the_time_zone_falls_back(setting: Option<Seq<char>>, hours: Option<Hours>)
    ensures
        setting is None ==> offset_of(setting, hours) == 28800 && !offset_is_wrong(setting, hours),
        setting matches Some(s) ==> {
            &&& is_blank(s) ==> offset_of(setting, hours) == 28800 && !offset_is_wrong(
                setting,
                hours,
            )
            &&& !is_blank(s) && (hours matches Some(h) ==> !h.is_offset()) ==> offset_of(
                setting,
                hours,
            ) == 28800 && offset_is_wrong(setting, hours)
            &&& !is_blank(s) && (hours matches Some(h) && h.is_offset()) ==> offset_of(
                setting,
                hours,
            ) == hours->0.seconds && !offset_is_wrong(setting, hours)
        },
{
}

/// A wrong time zone is logged as it is written, without the blanks around it.
pub proof fn law_a_wrong_time_zone_is_logged(before: Seq<char>, s: Seq<char>, behind: Seq<char>)
    requires
        is_blank(before),
        is_blank(behind),
        s.len() > 0,
        !is_space(s[0]),
        !is_space(s.last()),
    ensures
        offset_complaint(before + s + behind) == "tg-notify: tz_offset「"@ + s
            + "」不是合法的时区偏移（-12 到 14 的小时数），按东八区处理"@,
{
    crate::text::law_trimming_takes_blanks_away(before, s, behind);
}

/// The numbers of hours that are offsets: from zero up to 14, and from zero down to -12. The bits of
/// doubles grow with their sizes; 14 and -12 are the outermost.
pub proof fn law_offsets_lie_between(h: Hours)
    ensures
        h.bits < 0x8000_0000_0000_0000 ==> (h.is_offset() <==> h.bits <= 0x402c_0000_0000_0000),
        h.bits >= 0x8000_0000_0000_0000 ==> (h.is_offset() <==> h.bits - 0x8000_0000_0000_0000
            <= 0x4028_0000_0000_0000),
{
}

/// Only an event is told: without a payload, or with one that is no event, the end follows with code
/// 1, and the second is logged as an error. The telling of an event begins with the bot's token.
pub proof fn law_only_events_are_told(incoming: Incoming, s: Step)
    requires
        begins(incoming, s),
    ensures
        incoming is Missing ==> s.turn == (Turn::Done { code: 1 }) && logged(s.logs@).len() == 0,
        incoming is Unreadable ==> s.turn == (Turn::Done { code: 1 }) && logged(s.logs@) == seq![
            (3int, "tg-notify: 事件载荷不是合法的事件 JSON"@),
        ],
        incoming matches Incoming::Known(event) ==> s.turn == (Turn::Ask {
            ask: Ask::BotToken,
            stage: Stage::Token { event },
        }) && logged(s.logs@).len() == 0,
{
}

/// Without a token nothing but the end follows, with code 2, and without a chat with code 3; an
/// operator is told which setting is missing. With both, the time zone is asked for, and the clock
/// for an event that tells how long ago something was.
pub proof fn law_the_channel_is_looked_up(stage: Stage, answer: Answer, s: Step)
    requires
        follows(stage, answer, s),
    ensures
        stage is Token ==> (answer matches Answer::Setting(found) && match found {
            None => s.turn == (Turn::Done { code: 2 }) && logged(s.logs@) == seq![
                (2int, "tg-notify: kv 里没有 bot_token；请在面板的插件 KV 编辑器里填写"@),
            ],
            Some(token) => s.turn == (Turn::Ask {
                ask: Ask::ChatId,
                stage: Stage::Chat { event: stage->Token_event, token },
            }),
        }),
        stage is Chat ==> (answer matches Answer::Setting(found) && match found {
            None => s.turn == (Turn::Done { code: 3 }) && logged(s.logs@) == seq![
                (2int, "tg-notify: kv 里没有 chat_id；请在面板的插件 KV 编辑器里填写"@),
            ],
            Some(chat) => s.turn == (Turn::Ask {
                ask: Ask::Offset,
                stage: Stage::Offset {
                    event: stage->Chat_event,
                    token: stage->Chat_token,
                    chat,
                },
            }),
        }),
        stage is Offset ==> ((s.turn matches Turn::Ask { ask: Ask::Clock, .. })
            <==> stage->Offset_event is AgentOffline),
{
}

/// What is told, to whom and in which time zone does not change while the host is asked for the
/// rest, and the clock's reading is the one that it gave.
pub proof fn law_what_is_known_is_kept(stage: Stage, answer: Answer, s: Step)
    requires
        follows(stage, answer, s),
    ensures
        stage matches Stage::Offset { event, token, chat } ==> (
        answer matches Answer::Offset { setting, hours } && (s.turn matches Turn::Ask {
            stage: next,
            ..
        } && match next {
            Stage::Clock { event: e, token: t, chat: c, tz_secs } => e == event && t == token && c
                == chat && tz_secs == offset_of(opt_text(setting), hours),
            Stage::Template { event: e, token: t, chat: c, tz_secs, .. } => e == event && t
                == token && c == chat && tz_secs == offset_of(opt_text(setting), hours),
            _ => false,
        })),
        stage matches Stage::Clock { event, token, chat, tz_secs } ==> (
        answer matches Answer::Clock(reading) && (s.turn matches Turn::Ask {
            ask: Ask::Template { key },
            stage: next,
        } && key@ == template_key(event) && next == (Stage::Template {
            event,
            token,
            chat,
            tz_secs,
            now: reading,
        }))),
{
}

/// A message goes to the bot of the token by its method for messages, with the chat, the words and
/// the markup in its fields, and no others.
pub proof fn law_messages_are_addressed(token: Seq<char>, chat: Seq<char>, words: Seq<char>)
    ensures
        send_url(token) == "https://api.telegram.org/bot"@ + token + "/sendMessage"@,
        message_fields(chat, words).len() == 3,
        message_fields(chat, words).contains(("chat_id"@, chat)),
        message_fields(chat, words).contains(("text"@, words)),
        message_fields(chat, words).contains(("parse_mode"@, "HTML"@)),
{
    let fields = message_fields(chat, words);
    assert(fields[0] == ("chat_id"@, chat));
    assert(fields[1] == ("text"@, words));
    assert(fields[2] == ("parse_mode"@, "HTML"@));
}

/// After a message the end follows: with 0 where the host took it, with 10 minus the host's code
/// where it did not, and with 11 where there was no room for it. Every failure is logged.
pub proof fn law_how_a_telling_ends(answer: Answer, s: Step)
    requires
        follows(Stage::Sent, answer, s),
    ensures
        answer matches Answer::Posted(n) ==> {
            &&& n >= 0 ==> s.turn == (Turn::Done { code: 0 }) && s.logs@.len() == 0
            &&& n < 0 ==> (s.turn matches Turn::Done { code } && code == if 10 - n <= i32::MAX {
                10 - n
            } else {
                10 - n - 0x1_0000_0000
            })
            &&& n < 0 ==> logged(s.logs@) == seq![
                (
                    3int,
                    "tg-notify: sendMessage 失败，宿主错误码 "@ + int_digits(n as int)
                        + "（-1 越界 -2 非 https -3 非 POST -4 网络 -5 非 2xx -9 私有地址被拒）"@,
                ),
            ]
        },
        answer is NoRoom ==> s.turn == (Turn::Done { code: 11 }) && logged(s.logs@) == seq![
            (3int, "tg-notify: 分配请求缓冲失败"@),
        ],
{
    assert(logged(s.logs@).len() == s.logs@.len());
}

} // verus!
