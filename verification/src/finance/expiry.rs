//! Expiry dates: moving them on for nodes that are still in use, and announcing those that near.
use vstd::prelude::*;

use crate::calendar::{
    add_months, date_text, days_between, law_day_numbers_are_bounded, law_months_later_is_later,
    law_order_is_day_order, Date,
};
use crate::finance::billing::{cycle_months, law_cycles_have_their_months, months_of};
use crate::finance::effect::{
    effects_view, log, logged, no_effects, nothing, push_effect, push_effects, Effect, EffectView,
    ExpirySoon, ExpirySoonView,
};
use crate::finance::record::{
    copy_text, nodes_view, opt_date, read_date, Edition, NodeFin, NodeView,
};

verus! {

/// The number of days by which a date is past.
pub open spec fn days_short(date: Date, day: Date) -> int {
    if date.before(day) {
        day.number() - date.number()
    } else {
        0
    }
}

/// The first day that is not past, in steps of some months from a date. `None` where the calendar
/// ends before.
pub open spec fn rolled(date: Date, months: int, day: Date) -> Option<Date>
    decreases days_short(date, day),
    when date.valid() && day.valid() && months >= 1
{
    if !date.before(day) {
        Some(date)
    } else {
        match date.months_later(months) {
            Some(next) => {
                proof {
                    law_months_later_is_later(date, months);
                    law_order_is_day_order(date, next);
                    law_order_is_day_order(date, day);
                    law_order_is_day_order(next, day);
                }
                rolled(next, months, day)
            },
            None => None,
        }
    }
}

/// The record of a node whose expiry date moves on, if it does: the node is online, is paid by a
/// cycle, and its date is past.
pub open spec fn moved_on(node: NodeView, online: bool, day: Date) -> Option<NodeView> {
    match (months_of(node.billing_cycle), opt_date(node.expires_at)) {
        (Some(months), Some(date)) => if online && date.before(day) {
            match rolled(date, months as int, day) {
                Some(next) => Some(
                    NodeView { expires_at: Some(next.text()), last_notified: None, ..node },
                ),
                None => None,
            }
        } else {
            None
        },
        _ => None,
    }
}

/// Whether a list has an id.
fn has_id(ids: &Vec<i64>, id: i64) -> (r: bool)
    ensures
        r == ids@.contains(id),
{
    let mut i: usize = 0;
    while i < ids.len()
        invariant
            0 <= i <= ids@.len(),
            forall|k: int| 0 <= k < i ==> #[trigger] ids@[k] != id,
        decreases ids@.len() - i,
    {
        if ids[i] == id {
            assert(ids@[i as int] == id);
            return true;
        }
        i += 1;
    }
    false
}

/// The first day that is not past, in steps of some months from a date.
fn roll(date: Date, months: u32, day: &Date) -> (r: Option<Date>)
    requires
        date.valid(),
        day.valid(),
        months >= 1,
    ensures
        r == rolled(date, months as int, *day),
        r matches Some(next) ==> next.valid() && !next.before(*day),
{
    let mut next = date;
    while next.is_before(day)
        invariant
            next.valid(),
            day.valid(),
            months >= 1,
            rolled(date, months as int, *day) == rolled(next, months as int, *day),
        decreases days_short(next, *day),
    {
        proof {
            law_months_later_is_later(next, months as int);
            law_order_is_day_order(next, *day);
        }
        match add_months(&next, months) {
            Some(later) => {
                proof {
                    law_order_is_day_order(next, later);
                    law_order_is_day_order(later, *day);
                }
                next = later;
            },
            None => {
                return None;
            },
        }
    }
    Some(next)
}

/// Moves the expiry date of a node on to the first day of its cycle that is not past, where the
/// node is online and its date is past. Says whether it did. A date that has moved on is not past,
/// and no longer moves that day.
pub fn roll_if_online(id: i64, node: &mut NodeFin, online: &Vec<i64>, day: &Date) -> (r: bool)
    requires
        day.valid(),
    ensures
        r == (moved_on(old(node)@, online@.contains(id), *day) is Some),
        !r ==> *final(node) == *old(node),
        r ==> moved_on(old(node)@, online@.contains(id), *day) == Some(final(node)@),
        r ==> (opt_date(final(node)@.expires_at) matches Some(d) && d.valid() && !d.before(*day)),
        r ==> moved_on(final(node)@, true, *day) is None,
{
    if !has_id(online, id) {
        return false;
    }
    let months = match cycle_months(node.billing_cycle.as_str()) {
        Some(m) => m,
        None => {
            return false;
        },
    };
    let date = match read_date(&node.expires_at) {
        Some(d) => d,
        None => {
            return false;
        },
    };
    if !date.is_before(day) {
        return false;
    }
    match roll(date, months, day) {
        Some(next) => {
            node.expires_at = Some(date_text(&next));
            node.last_notified = None;
            true
        },
        None => false,
    }
}

/// The number of days from one date to another.
pub open spec fn days_from(day: Date, date: Date) -> i64 {
    (date.number() - day.number()) as i64
}

/// Whether the expiry of a node is announced on a day. The importing edition announces it on the
/// one day on which the threshold is met. The reconciling edition announces it once on each day
/// within the threshold, and remembers on which it did.
pub open spec fn due_for_notice(
    edition: Edition,
    node: NodeView,
    days_left: i64,
    threshold: i64,
) -> bool {
    match edition {
        Edition::Importing => days_left > 0 && days_left == threshold,
        Edition::Reconciling => 0 < days_left <= threshold && node.last_notified != Some(days_left),
    }
}

/// What is logged of a node whose date moved on.
pub open spec fn rolled_words(node: NodeView) -> Seq<char> {
    "finance-stats: 节点 "@ + node.name + " 到期日滚动到 "@ + match node.expires_at {
        Some(date) => "Some(\""@ + date + "\")"@,
        None => "None"@,
    }
}

/// What is logged of a node whose date moved on.
fn rolled_line(node: &NodeFin) -> (r: String)
    ensures
        r@ == rolled_words(node@),
{
    let mut words = "finance-stats: 节点 ".to_owned();
    words.append(node.name.as_str());
    words.append(" 到期日滚动到 ");
    let ghost start = words@;
    match &node.expires_at {
        Some(date) => {
            words.append("Some(\"");
            words.append(date.as_str());
            words.append("\")");
            assert(words@ == start + ("Some(\""@ + date@ + "\")"@));
        },
        None => {
            words.append("None");
        },
    }
    words
}

/// What the scan does about one node.
pub open spec fn scan_node(
    edition: Edition,
    id: i64,
    node: NodeView,
    online: bool,
    day: Date,
    threshold: i64,
) -> Seq<EffectView> {
    match (moved_on(node, online, day), opt_date(node.expires_at)) {
        (Some(next), _) => logged(1, rolled_words(next)).push(
            EffectView::SaveNode { id, node: next },
        ),
        (None, Some(date)) => {
            let days_left = days_from(day, date);
            if due_for_notice(edition, node, days_left, threshold) {
                let notice = no_effects().push(
                    EffectView::Announce(
                        ExpirySoonView {
                            node_id: id,
                            name: node.name,
                            expires_at: node.expires_at,
                            days_left,
                            threshold_days: threshold,
                        },
                    ),
                );
                match edition {
                    Edition::Importing => notice,
                    Edition::Reconciling => notice.push(
                        EffectView::SaveNode {
                            id,
                            node: NodeView { last_notified: Some(days_left), ..node },
                        },
                    ),
                }
            } else {
                no_effects()
            }
        },
        (None, None) => no_effects(),
    }
}

/// What the scan does, node by node.
pub open spec fn scan(
    edition: Edition,
    nodes: Seq<(i64, NodeView)>,
    online: Seq<i64>,
    day: Date,
    threshold: i64,
) -> Seq<EffectView>
    decreases nodes.len(),
{
    if nodes.len() == 0 {
        no_effects()
    } else {
        let (id, node) = nodes.last();
        scan(edition, nodes.drop_last(), online, day, threshold) + scan_node(
            edition,
            id,
            node,
            online.contains(id),
            day,
            threshold,
        )
    }
}

/// What the scan does about one node: a date that moves on is logged, saved and not announced; any other
/// is announced when that is due. The announcement comes before the record of it, so that a record
/// that could not be saved costs a repetition and never a silence.
pub fn check_node(
    edition: Edition,
    id: i64,
    node: NodeFin,
    online: &Vec<i64>,
    day: &Date,
    threshold: i64,
) -> (r: Vec<Effect>)
    requires
        day.valid(),
    ensures
        effects_view(r@) == scan_node(edition, id, node@, online@.contains(id), *day, threshold),
{
    let mut node = node;
    if roll_if_online(id, &mut node, online, day) {
        let mut effects = log(1, rolled_line(&node).as_str());
        push_effect(&mut effects, Effect::SaveNode { id, node });
        return effects;
    }
    let mut effects = nothing();
    let date = match read_date(&node.expires_at) {
        Some(d) => d,
        None => {
            return effects;
        },
    };
    let days_left: i64 = days_between(&date, day);
    let due = match edition {
        Edition::Importing => days_left > 0 && days_left == threshold,
        Edition::Reconciling => days_left > 0 && days_left <= threshold && match node.last_notified {
            Some(last) => last != days_left,
            None => true,
        },
    };
    if due {
        let notice = ExpirySoon {
            node_id: id,
            name: node.name.clone(),
            expires_at: copy_text(&node.expires_at),
            days_left,
            threshold_days: threshold,
        };
        push_effect(&mut effects, Effect::Announce(notice));
        match edition {
            Edition::Importing => {},
            Edition::Reconciling => {
                node.last_notified = Some(days_left);
                push_effect(&mut effects, Effect::SaveNode { id, node });
            },
        }
    }
    effects
}

/// Scans the nodes for expiry dates: moves on those that are past for nodes that are online, and
/// announces those that near.
pub fn check_nodes(
    edition: Edition,
    nodes: &Vec<(i64, NodeFin)>,
    online: &Vec<i64>,
    day: &Date,
    threshold: i64,
) -> (r: Vec<Effect>)
    requires
        day.valid(),
    ensures
        effects_view(r@) == scan(edition, nodes_view(nodes@), online@, *day, threshold),
{
    let ghost all = nodes_view(nodes@);
    let mut effects = nothing();
    let mut i: usize = 0;
    assert(all.take(0) == Seq::<(i64, NodeView)>::empty());
    while i < nodes.len()
        invariant
            0 <= i <= nodes@.len(),
            day.valid(),
            all == nodes_view(nodes@),
            effects_view(effects@) == scan(edition, all.take(i as int), online@, *day, threshold),
        decreases nodes@.len() - i,
    {
        assert(all.take(i + 1).drop_last() == all.take(i as int));
        assert(all.take(i + 1).last() == (nodes@[i as int].0, nodes@[i as int].1@));
        let more = check_node(edition, nodes[i].0, nodes[i].1.copy(), online, day, threshold);
        push_effects(&mut effects, more);
        i += 1;
    }
    assert(all.take(i as int) == all);
    effects
}

// ---------------------------------------------------------------------------
// What the scan promises
// ---------------------------------------------------------------------------

/// A date that has moved on is not past, and no earlier than before.
pub proof fn law_rolled_is_not_past(date: Date, months: int, day: Date)
    requires
        date.valid(),
        day.valid(),
        months >= 1,
    ensures
        rolled(date, months, day) matches Some(next) ==> next.valid() && !next.before(day)
            && !next.before(date),
    decreases days_short(date, day),
{
    if date.before(day) {
        law_months_later_is_later(date, months);
        if let Some(next) = date.months_later(months) {
            law_order_is_day_order(date, next);
            law_order_is_day_order(date, day);
            law_order_is_day_order(next, day);
            law_rolled_is_not_past(next, months, day);
            if let Some(end) = rolled(next, months, day) {
                law_order_is_day_order(end, next);
                law_order_is_day_order(end, date);
            }
        }
    }
}

/// A date moves on no further than needed: one step less would leave it past.
pub proof fn law_rolled_is_the_first(date: Date, months: int, day: Date)
    requires
        date.valid(),
        day.valid(),
        months >= 1,
        date.before(day),
    ensures
        rolled(date, months, day) matches Some(end) ==> exists|d: Date|
            d.valid() && d.before(day) && #[trigger] d.months_later(months) == Some(end),
    decreases days_short(date, day),
{
    law_months_later_is_later(date, months);
    if let Some(next) = date.months_later(months) {
        law_order_is_day_order(date, next);
        law_order_is_day_order(date, day);
        if next.before(day) {
            law_order_is_day_order(next, day);
            law_rolled_is_the_first(next, months, day);
        } else {
            assert(date.months_later(months) == Some(next));
        }
    }
}

/// Without word of which nodes are online no date moves on; announcements go out as ever.
pub proof fn law_unknown_hosts_move_nothing(
    edition: Edition,
    id: i64,
    node: NodeView,
    day: Date,
    threshold: i64,
)
    ensures
        moved_on(node, false, day) is None,
        forall|k: int|
            0 <= k < scan_node(edition, id, node, false, day, threshold).len() ==> (#[trigger] scan_node(
                edition,
                id,
                node,
                false,
                day,
                threshold,
            )[k] matches EffectView::SaveNode { node: saved, .. } ==> saved.expires_at
                == node.expires_at),
{
}

/// A node is announced only while days are left and within the threshold, and never in the scan
/// that moves its date on.
pub proof fn law_notices_keep_to_the_window(
    edition: Edition,
    id: i64,
    node: NodeView,
    online: bool,
    day: Date,
    threshold: i64,
)
    ensures
        forall|k: int|
            0 <= k < scan_node(edition, id, node, online, day, threshold).len() ==> (#[trigger] scan_node(
                edition,
                id,
                node,
                online,
                day,
                threshold,
            )[k] matches EffectView::Announce(notice) ==> 0 < notice.days_left <= threshold
                && moved_on(node, online, day) is None),
{
}

/// The reconciling edition announces a node at most once a day: whatever a later scan of that day
/// knows of the node and its threshold, it does nothing about the record that the announcement
/// leaves behind.
pub proof fn law_one_notice_a_day(
    id: i64,
    node: NodeView,
    online: bool,
    day: Date,
    threshold: i64,
    saved: NodeView,
    now_online: bool,
    now_threshold: i64,
)
    requires
        day.valid(),
        opt_date(node.expires_at) matches Some(d) && d.valid(),
        scan_node(Edition::Reconciling, id, node, online, day, threshold).len() == 2,
        scan_node(Edition::Reconciling, id, node, online, day, threshold)[0] is Announce,
        scan_node(Edition::Reconciling, id, node, online, day, threshold)[1] == (
        EffectView::SaveNode { id, node: saved }),
    ensures
        scan_node(Edition::Reconciling, id, saved, now_online, day, now_threshold) == no_effects(),
{
    if let Some(date) = opt_date(node.expires_at) {
        law_order_is_day_order(date, day);
        crate::calendar::law_day_numbers_are_bounded(date);
        crate::calendar::law_day_numbers_are_bounded(day);
    }
}

/// The reconciling edition announces a node again on the next day within the threshold, where the
/// importing edition announces only when the threshold is met.
pub proof fn law_every_day_of_the_window_is_announced(
    id: i64,
    node: NodeView,
    online: bool,
    day: Date,
    threshold: i64,
    date: Date,
)
    requires
        opt_date(node.expires_at) == Some(date),
        moved_on(node, online, day) is None,
        0 < days_from(day, date) <= threshold,
        node.last_notified != Some(days_from(day, date)),
    ensures
        scan_node(Edition::Reconciling, id, node, online, day, threshold).len() == 2,
        scan_node(Edition::Reconciling, id, node, online, day, threshold)[0] is Announce,
        scan_node(Edition::Importing, id, node, online, day, threshold).len() == if days_from(
            day,
            date,
        ) == threshold {
            1int
        } else {
            0int
        },
{
}

/// The date a number of steps of some months after a date; none past the end of the calendar.
pub open spec fn steps_later(date: Date, months: int, steps: nat) -> Option<Date>
    decreases steps,
{
    if steps == 0 {
        Some(date)
    } else {
        match steps_later(date, months, (steps - 1) as nat) {
            Some(d) => d.months_later(months),
            None => None,
        }
    }
}

proof fn lemma_steps_front(date: Date, next: Date, months: int, steps: nat)
    requires
        date.months_later(months) == Some(next),
    ensures
        steps_later(date, months, steps + 1) == steps_later(next, months, steps),
    decreases steps,
{
    reveal_with_fuel(steps_later, 3);
    if steps > 0 {
        lemma_steps_front(date, next, months, (steps - 1) as nat);
    }
}

proof fn lemma_rolled_by_steps(date: Date, months: int, day: Date) -> (steps: nat)
    requires
        date.valid(),
        day.valid(),
        months >= 1,
        rolled(date, months, day) is Some,
    ensures
        steps_later(date, months, steps) == rolled(date, months, day),
        date.before(day) ==> steps >= 1 && (steps_later(date, months, (steps - 1) as nat) matches Some(
            last,
        ) && last.before(day)),
        !date.before(day) ==> steps == 0,
    decreases days_short(date, day),
{
    if date.before(day) {
        law_months_later_is_later(date, months);
        let next = date.months_later(months)->0;
        law_order_is_day_order(date, next);
        law_order_is_day_order(date, day);
        law_order_is_day_order(next, day);
        let rest = lemma_rolled_by_steps(next, months, day);
        lemma_steps_front(date, next, months, rest);
        if rest > 0 {
            lemma_steps_front(date, next, months, (rest - 1) as nat);
        }
        rest + 1
    } else {
        0
    }
}

proof fn lemma_steps_reach(date: Date, months: int, day: Date, steps: nat)
    requires
        date.valid(),
        day.valid(),
        months >= 1,
        steps_later(date, months, steps) matches Some(d) && !d.before(day),
    ensures
        rolled(date, months, day) is Some,
    decreases steps,
{
    if date.before(day) {
        assert(steps > 0);
        law_months_later_is_later(date, months);
        lemma_first_step(date, months, steps);
        let next = date.months_later(months)->0;
        lemma_steps_front(date, next, months, (steps - 1) as nat);
        lemma_steps_reach(next, months, day, (steps - 1) as nat);
    }
}

proof fn lemma_first_step(date: Date, months: int, steps: nat)
    requires
        steps > 0,
        steps_later(date, months, steps) is Some,
    ensures
        date.months_later(months) is Some,
    decreases steps,
{
    reveal_with_fuel(steps_later, 2);
    if steps > 1 {
        lemma_first_step(date, months, (steps - 1) as nat);
    }
}

/// Where the date of a node moves on, it does so by a whole number of steps, at least one, each as
/// many months as the node's own cycle has. One step less would leave it past, and with the last
/// it is not. The notices of the old date are forgotten, and nothing else about the node changes.
pub proof fn law_dates_move_by_whole_cycles(node: NodeView, day: Date, date: Date, months: int)
    requires
        day.valid(),
        date.valid(),
        opt_date(node.expires_at) == Some(date),
        moved_on(node, true, day) is Some,
        (node.billing_cycle == "monthly"@ && months == 1) || (node.billing_cycle == "quarterly"@
            && months == 3) || (node.billing_cycle == "semiannual"@ && months == 6) || (
        node.billing_cycle == "yearly"@ && months == 12) || (node.billing_cycle == "biennial"@
            && months == 24) || (node.billing_cycle == "triennial"@ && months == 36),
    ensures
        exists|steps: nat|
            #![trigger steps_later(date, months, steps)]
            steps >= 1 && (steps_later(date, months, (steps - 1) as nat) matches Some(last)
                && last.before(day)) && (steps_later(date, months, steps) matches Some(next)
                && !next.before(day) && moved_on(node, true, day) == Some(
                NodeView { expires_at: Some(next.text()), last_notified: None, ..node },
            )),
{
    law_cycles_have_their_months(node.billing_cycle);
    let steps = lemma_rolled_by_steps(date, months, day);
    law_rolled_is_not_past(date, months, day);
    assert(steps_later(date, months, steps) is Some);
}

/// The date of a node moves on only where the node is online, is paid by one of the six cycles,
/// and has a date that is past.
pub proof fn law_dates_that_stay(node: NodeView, online: bool, day: Date)
    requires
        !online || (opt_date(node.expires_at) matches Some(d) ==> !d.before(day)) || (
        node.billing_cycle != "monthly"@ && node.billing_cycle != "quarterly"@
            && node.billing_cycle != "semiannual"@ && node.billing_cycle != "yearly"@
            && node.billing_cycle != "biennial"@ && node.billing_cycle != "triennial"@),
    ensures
        moved_on(node, online, day) is None,
{
    law_cycles_have_their_months(node.billing_cycle);
}

/// The past date of an online node that is paid by a cycle does move on, where some number of
/// cycles later there is a day of the calendar that is not past.
pub proof fn law_past_dates_move(node: NodeView, day: Date, date: Date, months: u32, steps: nat)
    requires
        day.valid(),
        date.valid(),
        opt_date(node.expires_at) == Some(date),
        date.before(day),
        months_of(node.billing_cycle) == Some(months),
        steps_later(date, months as int, steps) matches Some(end) && !end.before(day),
    ensures
        moved_on(node, true, day) is Some,
{
    law_cycles_have_their_months(node.billing_cycle);
    lemma_steps_reach(date, months as int, day, steps);
}

/// A node whose date moves on is logged with its name and its new date, and saved as it now is;
/// that is all.
pub proof fn law_moved_dates_are_saved(
    edition: Edition,
    id: i64,
    node: NodeView,
    online: bool,
    day: Date,
    threshold: i64,
)
    requires
        moved_on(node, online, day) is Some,
    ensures
        ({
            let done = scan_node(edition, id, node, online, day, threshold);
            let next = moved_on(node, online, day)->0;
            &&& done.len() == 2
            &&& done[0] == (EffectView::Log {
                level: 1,
                words: "finance-stats: 节点 "@ + node.name + " 到期日滚动到 "@ + ("Some(\""@
                    + next.expires_at->0 + "\")"@),
            })
            &&& done[1] == (EffectView::SaveNode { id, node: next })
        }),
{
}

/// An announcement comes first, and tells the id, the name and the expiry date of its node, the
/// days from today to that date, and the threshold in force. What is saved behind it is the same
/// record, with the number of days marked.
pub proof fn law_announcements_tell_of_their_node(
    edition: Edition,
    id: i64,
    node: NodeView,
    online: bool,
    day: Date,
    threshold: i64,
    k: int,
)
    requires
        day.valid(),
        opt_date(node.expires_at) matches Some(d) ==> d.valid(),
        0 <= k < scan_node(edition, id, node, online, day, threshold).len(),
        moved_on(node, online, day) is None,
    ensures
        ({
            let done = scan_node(edition, id, node, online, day, threshold);
            &&& done[0] matches EffectView::Announce(told) && {
                &&& told.node_id == id
                &&& told.name == node.name
                &&& told.expires_at == node.expires_at
                &&& told.threshold_days == threshold
                &&& opt_date(node.expires_at) matches Some(date) && told.days_left
                    == date.number() - day.number()
                &&& k == 1 ==> done[k] == (EffectView::SaveNode {
                    id,
                    node: NodeView { last_notified: Some(told.days_left), ..node },
                })
            }
            &&& done.len() == if edition == Edition::Importing {
                1int
            } else {
                2int
            }
        }),
{
    if let Some(date) = opt_date(node.expires_at) {
        law_day_numbers_are_bounded(date);
        law_day_numbers_are_bounded(day);
    }
}

/// The importing edition announces a node on the day on which exactly the days of the threshold are
/// left, whatever was announced before, and on no other.
pub proof fn law_the_importing_edition_announces_once(
    id: i64,
    node: NodeView,
    online: bool,
    day: Date,
    threshold: i64,
    date: Date,
)
    requires
        day.valid(),
        date.valid(),
        opt_date(node.expires_at) == Some(date),
        moved_on(node, online, day) is None,
    ensures
        scan_node(Edition::Importing, id, node, online, day, threshold).len() == if date.number()
            - day.number() == threshold && threshold > 0 {
            1int
        } else {
            0int
        },
{
    law_day_numbers_are_bounded(date);
    law_day_numbers_are_bounded(day);
}

/// The reconciling edition announces a node on each day within the threshold that is not marked, and
/// on no other.
pub proof fn law_the_reconciling_edition_announces_daily(
    id: i64,
    node: NodeView,
    online: bool,
    day: Date,
    threshold: i64,
    date: Date,
)
    requires
        day.valid(),
        date.valid(),
        opt_date(node.expires_at) == Some(date),
        moved_on(node, online, day) is None,
    ensures
        scan_node(Edition::Reconciling, id, node, online, day, threshold).len() == if 0
            < date.number() - day.number() <= threshold && !(node.last_notified matches Some(last)
            && last == date.number() - day.number()) {
            2int
        } else {
            0int
        },
{
    law_day_numbers_are_bounded(date);
    law_day_numbers_are_bounded(day);
}

/// A node whose expiry date cannot be read, or that has none, is left alone.
pub proof fn law_nodes_without_a_date_are_left_alone(
    edition: Edition,
    id: i64,
    node: NodeView,
    online: bool,
    day: Date,
    threshold: i64,
)
    requires
        opt_date(node.expires_at) is None,
    ensures
        scan_node(edition, id, node, online, day, threshold) == no_effects(),
{
}

/// What the scan does is what it does about each node, as online as the list says, in the order of
/// the nodes and nothing between.
pub proof fn law_every_node_is_scanned(
    edition: Edition,
    before: Seq<(i64, NodeView)>,
    id: i64,
    node: NodeView,
    behind: Seq<(i64, NodeView)>,
    online: Seq<i64>,
    day: Date,
    threshold: i64,
)
    ensures
        scan(edition, before.push((id, node)) + behind, online, day, threshold) == scan(
            edition,
            before,
            online,
            day,
            threshold,
        ) + scan_node(edition, id, node, online.contains(id), day, threshold) + scan(
            edition,
            behind,
            online,
            day,
            threshold,
        ),
        scan(edition, Seq::empty(), online, day, threshold).len() == 0,
    decreases behind.len(),
{
    let all = before.push((id, node)) + behind;
    if behind.len() == 0 {
        assert(all == before.push((id, node)));
        assert(all.drop_last() == before);
    } else {
        law_every_node_is_scanned(
            edition,
            before,
            id,
            node,
            behind.drop_last(),
            online,
            day,
            threshold,
        );
        assert(all.drop_last() == before.push((id, node)) + behind.drop_last());
        assert(all.last() == behind.last());
    }
}

} // verus!
