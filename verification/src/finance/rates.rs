//! Exchange rates: fetching them, keeping them, and saying why that failed.
use vstd::prelude::*;

use crate::calendar::{day_of_second, in_calendar, minute_of_seconds, minute_text};
use crate::finance::effect::{
    effects_view, log, logged, no_effects, nothing, push_effect, Effect, EffectView, FxStatusView,
    FxView,
};
use crate::finance::record::{Edition, Fx, FxStatus};
use crate::json::{rates_result, rates_under, rates_view, read_rates};
use crate::text::{int_digits, push_int};

verus! {

/// Where the rates of a currency are fetched from.
pub open spec fn url_of(target: Seq<char>) -> Seq<char> {
    "https://api.frankfurter.dev/v1/latest?base="@ + target
}

/// Where the rates of a currency are fetched from.
pub fn rates_url(target: &str) -> (r: String)
    ensures
        r@ == url_of(target@),
{
    let mut out = "https://api.frankfurter.dev/v1/latest?base=".to_owned();
    out.append(target);
    out
}

/// What a code in place of a reply means. Zero is an empty reply.
pub open spec fn reason_of(code: int) -> Seq<char> {
    if code == -1 {
        "宿主侧读写失败（参数越界/非 UTF-8 或写回失败）"@
    } else if code == -2 {
        "目标地址不是 https，宿主拒绝"@
    } else if code == -4 {
        "网络请求失败或超时"@
    } else if code == -5 {
        "汇率服务返回非 2xx 响应"@
    } else if code == -9 {
        "目标地址解析到私有/保留网段，宿主拒绝"@
    } else if code == 0 {
        "汇率服务返回了空响应"@
    } else {
        "宿主返回错误码 "@ + int_digits(code)
    }
}

/// What a code in place of a reply means. Zero is an empty reply.
pub fn http_error_reason(code: i32) -> (r: String)
    ensures
        r@ == reason_of(code as int),
{
    if code == -1 {
        "宿主侧读写失败（参数越界/非 UTF-8 或写回失败）".to_owned()
    } else if code == -2 {
        "目标地址不是 https，宿主拒绝".to_owned()
    } else if code == -4 {
        "网络请求失败或超时".to_owned()
    } else if code == -5 {
        "汇率服务返回非 2xx 响应".to_owned()
    } else if code == -9 {
        "目标地址解析到私有/保留网段，宿主拒绝".to_owned()
    } else if code == 0 {
        "汇率服务返回了空响应".to_owned()
    } else {
        let mut out = "宿主返回错误码 ".to_owned();
        push_int(&mut out, code as i64);
        out
    }
}

/// Why a reply gives no rates: a code in its place, a body that is no JSON document, or one
/// without rates. `None` where it gives some.
pub open spec fn failure_of(
    code: int,
    parsed: Result<Option<Seq<(Seq<char>, u64)>>, Seq<char>>,
) -> Option<Seq<char>> {
    if code <= 0 {
        Some(reason_of(code))
    } else {
        match parsed {
            Err(complaint) => Some("汇率响应不是合法 JSON："@ + complaint),
            Ok(None) => Some("汇率响应里没有 rates 字段"@),
            Ok(Some(rates)) => if rates.len() == 0 {
                Some("汇率响应里没有 rates 字段"@)
            } else {
                None
            },
        }
    }
}

/// What is logged of a reply that gives no rates. The reconciling edition gives the reason for a
/// code too.
pub open spec fn failure_log(
    edition: Edition,
    code: int,
    parsed: Result<Option<Seq<(Seq<char>, u64)>>, Seq<char>>,
) -> Seq<char> {
    if code <= 0 {
        let short = "finance-stats: 汇率拉取失败（"@ + int_digits(code) + "）"@;
        match edition {
            Edition::Importing => short,
            Edition::Reconciling => short + "："@ + reason_of(code),
        }
    } else {
        match parsed {
            Err(complaint) => "finance-stats: 汇率响应不是 JSON: "@ + complaint,
            Ok(_) => "finance-stats: 汇率响应没有 rates"@,
        }
    }
}

/// What is changed after a reply: rates replace those in the cache and take back the word of an
/// earlier failure; a failure is logged and written down with its reason and time.
pub open spec fn outcome(
    edition: Edition,
    target: Seq<char>,
    code: int,
    parsed: Result<Option<Seq<(Seq<char>, u64)>>, Seq<char>>,
    now: i64,
) -> Seq<EffectView> {
    match (failure_of(code, parsed), parsed) {
        (None, Ok(Some(rates))) => no_effects().push(
            EffectView::SaveFx(FxView { base: target, rates, fetched_at: now }),
        ).push(EffectView::DropFxStatus),
        (Some(reason), _) => logged(2, failure_log(edition, code, parsed)).push(
            EffectView::SaveFxStatus(FxStatusView { reason, attempted_at: now }),
        ),
        _ => no_effects(),
    }
}

/// The change that writes a failure down.
pub fn record_fx_failure(reason: String, now: i64) -> (r: Effect)
    ensures
        r@ == EffectView::SaveFxStatus(FxStatusView { reason: reason@, attempted_at: now }),
{
    Effect::SaveFxStatus(FxStatus { reason, attempted_at: now })
}

/// The change that takes the word of a failure back.
pub fn clear_fx_failure() -> (r: Effect)
    ensures
        r@ == EffectView::DropFxStatus,
{
    Effect::DropFxStatus
}

/// The changes of a failure: a line in the log, and the reason and time on record.
fn fail(words: &str, reason: String, now: i64) -> (r: Vec<Effect>)
    ensures
        effects_view(r@) == logged(2, words@).push(
            EffectView::SaveFxStatus(FxStatusView { reason: reason@, attempted_at: now }),
        ),
{
    let mut effects = log(2, words);
    push_effect(&mut effects, record_fx_failure(reason, now));
    effects
}

/// What is changed after a reply whose body has been read, and whether there are new rates.
pub fn take_rates(
    edition: Edition,
    target: &str,
    code: i32,
    parsed: Result<Option<Vec<(String, u64)>>, String>,
    now: i64,
) -> (r: (bool, Vec<Effect>))
    ensures
        r.0 == (failure_of(code as int, rates_result(parsed)) is None),
        effects_view(r.1@) == outcome(edition, target@, code as int, rates_result(parsed), now),
{
    if code <= 0 {
        let reason = http_error_reason(code);
        let mut words = "finance-stats: 汇率拉取失败（".to_owned();
        push_int(&mut words, code as i64);
        words.append("）");
        match edition {
            Edition::Importing => {},
            Edition::Reconciling => {
                words.append("：");
                words.append(reason.as_str());
            },
        }
        return (false, fail(words.as_str(), reason, now));
    }
    match parsed {
        Err(complaint) => {
            let mut words = "finance-stats: 汇率响应不是 JSON: ".to_owned();
            words.append(complaint.as_str());
            let mut reason = "汇率响应不是合法 JSON：".to_owned();
            reason.append(complaint.as_str());
            (false, fail(words.as_str(), reason, now))
        },
        Ok(found) => {
            let rates = match found {
                Some(list) => list,
                None => Vec::new(),
            };
            assert(found matches Some(list) ==> rates_view(list@).len() == rates@.len());
            if rates.len() == 0 {
                let reason = "汇率响应里没有 rates 字段".to_owned();
                return (false, fail("finance-stats: 汇率响应没有 rates", reason, now));
            }
            let mut effects = nothing();
            push_effect(
                &mut effects,
                Effect::SaveFx(Fx { base: target.to_owned(), rates, fetched_at: now }),
            );
            push_effect(&mut effects, clear_fx_failure());
            (true, effects)
        },
    }
}

/// What is changed after a reply to a request for the rates of a currency, and whether there are
/// new ones. The reply is the number of bytes that came back, or a code in place of them, and the
/// bytes as text.
pub fn refresh_fx(edition: Edition, target: &str, code: i32, body: &str, now: i64) -> (r: (
    bool,
    Vec<Effect>,
))
    ensures
        r.0 == (failure_of(code as int, rates_under(body@, "rates"@)) is None),
        effects_view(r.1@) == outcome(
            edition,
            target@,
            code as int,
            rates_under(body@, "rates"@),
            now,
        ),
{
    let parsed = read_rates(body, "rates");
    take_rates(edition, target, code, parsed, now)
}

/// What is logged before rates are fetched.
pub open spec fn fetch_log(target: Seq<char>) -> Seq<char> {
    "finance-stats: 拉取汇率 "@ + url_of(target)
}

/// New rates replace the cache and take an earlier failure back.
pub proof fn law_new_rates_clear_the_failure(
    edition: Edition,
    target: Seq<char>,
    code: int,
    parsed: Result<Option<Seq<(Seq<char>, u64)>>, Seq<char>>,
    now: i64,
)
    requires
        failure_of(code, parsed) is None,
    ensures
        outcome(edition, target, code, parsed, now).len() == 2,
        outcome(edition, target, code, parsed, now)[0] matches EffectView::SaveFx(fx)
            && fx.base == target && fx.fetched_at == now && (parsed matches Ok(Some(rates)) && rates == fx.rates)
            && fx.rates.len() > 0,
        outcome(edition, target, code, parsed, now)[1] == EffectView::DropFxStatus,
{
}

/// A failure leaves its reason and time behind and never touches the rates in the cache.
pub proof fn law_a_failure_keeps_the_cache(
    edition: Edition,
    target: Seq<char>,
    code: int,
    parsed: Result<Option<Seq<(Seq<char>, u64)>>, Seq<char>>,
    now: i64,
)
    requires
        failure_of(code, parsed) is Some,
    ensures
        outcome(edition, target, code, parsed, now) == logged(
            2,
            failure_log(edition, code, parsed),
        ).push(
            EffectView::SaveFxStatus(
                FxStatusView { reason: failure_of(code, parsed)->0, attempted_at: now },
            ),
        ),
        forall|k: int|
            0 <= k < outcome(edition, target, code, parsed, now).len() ==> (#[trigger] outcome(
                edition,
                target,
                code,
                parsed,
                now,
            )[k]).row() != Some("fx"@),
{
    reveal_strlit("fx");
    reveal_strlit("fx_status");
    assert("fx"@.len() == 2 && "fx_status"@.len() == 9);
}

/// A moment of the clock as text, to the minute, in UTC; nothing for one outside of the calendar.
pub open spec fn stamp(secs: int) -> Seq<char> {
    if in_calendar(day_of_second(secs)) {
        minute_text(secs) + " UTC"@
    } else {
        Seq::empty()
    }
}

/// A moment of the clock as text, to the minute, in UTC; nothing for one outside of the calendar.
pub fn fmt_ts(secs: i64) -> (r: String)
    ensures
        r@ == stamp(secs as int),
{
    match minute_of_seconds(secs) {
        Some(t) => {
            let mut out = t;
            out.append(" UTC");
            out
        },
        None => String::new(),
    }
}

/// What a failed refresh is answered: the reason that was written down, and whether the totals go
/// on with older rates or have none.
pub open spec fn failure_words(reason: Option<Seq<char>>, cached: bool) -> Seq<char> {
    match reason {
        Some(why) => if cached {
            "汇率刷新失败，统计沿用最近一次缓存："@ + why
        } else {
            "汇率刷新失败："@ + why + "（尚未成功拉取过汇率，统计暂缺）"@
        },
        None => "汇率刷新失败"@,
    }
}

/// The reason of a failure, if there was one.
pub open spec fn why(status: Option<FxStatus>) -> Option<Seq<char>> {
    match status {
        Some(s) => Some(s.reason@),
        None => None,
    }
}

/// What a failed refresh is answered.
pub fn refresh_fx_failure_toast(status: &Option<FxStatus>, cached: bool) -> (r: String)
    ensures
        r@ == failure_words(why(*status), cached),
{
    match status {
        Some(s) => if cached {
            let mut out = "汇率刷新失败，统计沿用最近一次缓存：".to_owned();
            out.append(s.reason.as_str());
            out
        } else {
            let mut out = "汇率刷新失败：".to_owned();
            out.append(s.reason.as_str());
            out.append("（尚未成功拉取过汇率，统计暂缺）");
            out
        },
        None => "汇率刷新失败".to_owned(),
    }
}

// ---------------------------------------------------------------------------
// What fetching promises
// ---------------------------------------------------------------------------

/// The rates are fetched for the currency that they are wanted for, over https, and the log says
/// from where.
pub proof fn law_rates_are_fetched_for_their_currency(target: Seq<char>)
    ensures
        url_of(target) == "https://api.frankfurter.dev/v1/latest?base="@ + target,
        fetch_log(target) == "finance-stats: 拉取汇率 https://api.frankfurter.dev/v1/latest?base="@
            + target,
{
    reveal_strlit("finance-stats: 拉取汇率 ");
    reveal_strlit("https://api.frankfurter.dev/v1/latest?base=");
    reveal_strlit("finance-stats: 拉取汇率 https://api.frankfurter.dev/v1/latest?base=");
    assert("finance-stats: 拉取汇率 "@ + "https://api.frankfurter.dev/v1/latest?base="@
        == "finance-stats: 拉取汇率 https://api.frankfurter.dev/v1/latest?base="@);
    assert("finance-stats: 拉取汇率 "@ + ("https://api.frankfurter.dev/v1/latest?base="@ + target)
        == "finance-stats: 拉取汇率 "@ + "https://api.frankfurter.dev/v1/latest?base="@ + target);
}

/// Each code that the host gives a meaning has its own reason; any other is told as a number.
pub proof fn law_codes_have_their_reasons(code: int)
    ensures
        code == -1 ==> reason_of(code) == "宿主侧读写失败（参数越界/非 UTF-8 或写回失败）"@,
        code == -2 ==> reason_of(code) == "目标地址不是 https，宿主拒绝"@,
        code == -4 ==> reason_of(code) == "网络请求失败或超时"@,
        code == -5 ==> reason_of(code) == "汇率服务返回非 2xx 响应"@,
        code == -9 ==> reason_of(code) == "目标地址解析到私有/保留网段，宿主拒绝"@,
        code == 0 ==> reason_of(code) == "汇率服务返回了空响应"@,
        !(seq![-1int, -2, -4, -5, -9, 0].contains(code)) ==> reason_of(code) == "宿主返回错误码 "@
            + int_digits(code),
{
    let known = seq![-1int, -2, -4, -5, -9, 0];
    assert(known[0] == -1 && known[1] == -2 && known[2] == -4 && known[3] == -5 && known[4] == -9
        && known[5] == 0);
}

/// Rates are taken from a reply with bytes that are a document with a map of at least one rate, and
/// from no other. Why not is told: by the code, by what is wrong with the document, or by its
/// having no rates.
pub proof fn law_which_replies_give_rates(
    code: int,
    parsed: Result<Option<Seq<(Seq<char>, u64)>>, Seq<char>>,
)
    ensures
        failure_of(code, parsed) is None <==> code > 0 && (parsed matches Ok(Some(rates))
            && rates.len() > 0),
        code <= 0 ==> failure_of(code, parsed) == Some(reason_of(code)),
        code > 0 && parsed is Err ==> failure_of(code, parsed) == Some(
            "汇率响应不是合法 JSON："@ + parsed->Err_0,
        ),
        code > 0 && (parsed matches Ok(found) && (found is None || found->0.len() == 0))
            ==> failure_of(code, parsed) == Some("汇率响应里没有 rates 字段"@),
{
}

/// A failure is logged as a warning: with its code, and in the reconciling edition its reason; with
/// what is wrong with the document; or as a document without rates.
pub proof fn law_failures_are_logged(
    code: int,
    parsed: Result<Option<Seq<(Seq<char>, u64)>>, Seq<char>>,
)
    ensures
        code <= 0 ==> failure_log(Edition::Importing, code, parsed)
            == "finance-stats: 汇率拉取失败（"@ + int_digits(code) + "）"@,
        code <= 0 ==> failure_log(Edition::Reconciling, code, parsed)
            == "finance-stats: 汇率拉取失败（"@ + int_digits(code) + "）"@ + "："@ + reason_of(code),
        forall|edition: Edition|
            code > 0 && parsed is Err ==> #[trigger] failure_log(edition, code, parsed)
                == "finance-stats: 汇率响应不是 JSON: "@ + parsed->Err_0,
        forall|edition: Edition|
            code > 0 && parsed is Ok ==> #[trigger] failure_log(edition, code, parsed)
                == "finance-stats: 汇率响应没有 rates"@,
{
}

/// A failed refresh is answered with its reason, and with whether the totals go on with older rates
/// or have none. Without a reason on record it is answered as a failure alone.
pub proof fn law_failed_refreshes_are_explained(reason: Seq<char>)
    ensures
        failure_words(Some(reason), true) == "汇率刷新失败，统计沿用最近一次缓存："@ + reason,
        failure_words(Some(reason), false) == "汇率刷新失败："@ + reason
            + "（尚未成功拉取过汇率，统计暂缺）"@,
        forall|cached: bool| #[trigger] failure_words(None, cached) == "汇率刷新失败"@,
{
}

/// A moment is told to the minute, and that it is told in UTC.
pub proof fn law_moments_are_told_in_utc(secs: int)
    ensures
        in_calendar(day_of_second(secs)) ==> stamp(secs) == minute_text(secs) + " UTC"@,
        !in_calendar(day_of_second(secs)) ==> stamp(secs).len() == 0,
{
}

} // verus!
