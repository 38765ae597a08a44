//! The host's nodes and the records about them: taking over, aligning, clearing out.
use std::collections::HashMap;
use vstd::prelude::*;

use crate::calendar::Date;
use crate::finance::effect::{effects_view, no_effects, nothing, push_effect, Effect, EffectView};
use crate::finance::record::{blank, blank_node, nodes_view, Edition, NodeFin, NodeView};

verus! {

broadcast use vstd::std_specs::hash::group_hash_axioms;

/// A node as the host has it.
#[derive(Debug)]
pub struct HostNode {
    pub id: i64,
    pub name: String,
    pub online: bool,
    /// When the host created the node: with the id, what tells it from every other.
    pub created_at: Option<i64>,
}

/// The records of a list under their ids; of two under one id the later.
pub open spec fn table(known: Seq<(i64, NodeView)>) -> Map<i64, NodeView>
    decreases known.len(),
{
    if known.len() == 0 {
        Map::empty()
    } else {
        table(known.drop_last()).insert(known.last().0, known.last().1)
    }
}

/// The record under an id, if there is one.
pub open spec fn found(records: Map<i64, NodeView>, id: i64) -> Option<NodeView> {
    if records.contains_key(id) {
        Some(records[id])
    } else {
        None
    }
}

/// The record that a node of the host gets, where `before` was there. Without one it gets a blank
/// one. A record that says nothing of when its node was created takes that over from the host. One
/// about another node gives way to a blank one. Every other is kept.
pub open spec fn settle(before: Option<NodeView>, host: HostNode, day: Date) -> NodeView {
    match (before, host.created_at) {
        (None, _) => blank(Edition::Reconciling, host.name@, host.created_at, day),
        (Some(record), None) => record,
        (Some(record), Some(created)) => match record.host_created_at {
            None => NodeView { host_created_at: Some(created), ..record },
            Some(stored) => if stored == created {
                record
            } else {
                blank(Edition::Reconciling, host.name@, Some(created), day)
            },
        },
    }
}

/// Whether a node of the host gets a record other than the one that was there.
pub open spec fn unsettled(before: Option<NodeView>, host: HostNode) -> bool {
    match (before, host.created_at) {
        (None, _) => true,
        (Some(_), None) => false,
        (Some(record), Some(created)) => record.host_created_at != Some(created),
    }
}

/// The records after each node of the host got its own.
pub open spec fn settled(records: Map<i64, NodeView>, host: Seq<HostNode>, day: Date) -> Map<
    i64,
    NodeView,
>
    decreases host.len(),
{
    if host.len() == 0 {
        records
    } else {
        let before = settled(records, host.drop_last(), day);
        let h = host.last();
        before.insert(h.id, settle(found(before, h.id), h, day))
    }
}

/// The records to save, in the host's order.
pub open spec fn saves(
    records: Map<i64, NodeView>,
    host: Seq<HostNode>,
    day: Date,
) -> Seq<EffectView>
    decreases host.len(),
{
    if host.len() == 0 {
        no_effects()
    } else {
        let before = settled(records, host.drop_last(), day);
        let done = saves(records, host.drop_last(), day);
        let h = host.last();
        if unsettled(found(before, h.id), h) {
            done.push(
                EffectView::SaveNode { id: h.id, node: settle(found(before, h.id), h, day) },
            )
        } else {
            done
        }
    }
}

/// Whether the host has a node of this id.
pub open spec fn lives(host: Seq<HostNode>, id: i64) -> bool {
    exists|i: int| 0 <= i < host.len() && (#[trigger] host[i]).id == id
}

/// Whether a list has an entry under an id.
pub open spec fn lists(known: Seq<(i64, NodeView)>, id: i64) -> bool {
    exists|i: int| 0 <= i < known.len() && (#[trigger] known[i]).0 == id
}

/// The records to delete: those about nodes that the host has no longer, each once.
pub open spec fn removals(known: Seq<(i64, NodeView)>, host: Seq<HostNode>) -> Seq<EffectView>
    decreases known.len(),
{
    if known.len() == 0 {
        no_effects()
    } else {
        let done = removals(known.drop_last(), host);
        let id = known.last().0;
        if lives(host, id) || lists(known.drop_last(), id) {
            done
        } else {
            done.push(EffectView::DeleteNode { id })
        }
    }
}

/// Records in the order in which the host has their nodes.
pub open spec fn in_host_order(records: Map<i64, NodeView>, host: Seq<HostNode>) -> Seq<
    (i64, NodeView),
>
    decreases host.len(),
{
    if host.len() == 0 {
        Seq::empty()
    } else {
        let done = in_host_order(records, host.drop_last());
        let id = host.last().id;
        if lives(host.drop_last(), id) {
            done
        } else {
            done.push((id, records[id]))
        }
    }
}

/// The records once they are aligned with the host's nodes.
pub open spec fn aligned(known: Seq<(i64, NodeView)>, host: Seq<HostNode>, day: Date) -> Seq<
    (i64, NodeView),
> {
    in_host_order(settled(table(known), host, day), host)
}

/// The changes that align the records with the host's nodes.
pub open spec fn alignment(known: Seq<(i64, NodeView)>, host: Seq<HostNode>, day: Date) -> Seq<
    EffectView,
> {
    saves(table(known), host, day) + removals(known, host)
}

/// The records of an executable table in the abstract.
pub open spec fn map_view(records: Map<i64, NodeFin>) -> Map<i64, NodeView> {
    records.map_values(|n: NodeFin| n@)
}

/// Whether the host has a node of this id.
fn is_live(host: &Vec<HostNode>, id: i64) -> (r: bool)
    ensures
        r == lives(host@, id),
{
    let mut i: usize = 0;
    while i < host.len()
        invariant
            0 <= i <= host@.len(),
            forall|k: int| 0 <= k < i ==> (#[trigger] host@[k]).id != id,
        decreases host@.len() - i,
    {
        if host[i].id == id {
            assert(host@[i as int].id == id);
            return true;
        }
        i += 1;
    }
    false
}

/// The record that a node of the host gets in place of the one that was there; `None` where that
/// one is kept.
fn settle_node(before: Option<&NodeFin>, host: &HostNode, day: &Date) -> (r: Option<NodeFin>)
    requires
        day.valid(),
    ensures
        ({
            let was = match before {
                Some(n) => Some(n@),
                None => None,
            };
            &&& r is Some <==> unsettled(was, *host)
            &&& r matches Some(n) ==> n@ == settle(was, *host, *day)
        }),
{
    match before {
        None => Some(blank_node(Edition::Reconciling, host.name.clone(), host.created_at, day)),
        Some(record) => match host.created_at {
            None => None,
            Some(created) => match record.host_created_at {
                None => {
                    let mut adopted = record.copy();
                    adopted.host_created_at = Some(created);
                    Some(adopted)
                },
                Some(stored) => if stored != created {
                    Some(blank_node(Edition::Reconciling, host.name.clone(), Some(created), day))
                } else {
                    None
                },
            },
        },
    }
}

/// A table of records by their ids; of two under one id the later.
fn by_id(known: Vec<(i64, NodeFin)>) -> (r: HashMap<i64, NodeFin>)
    ensures
        map_view(r@) == table(nodes_view(known@)),
{
    let mut out: HashMap<i64, NodeFin> = HashMap::new();
    let mut i: usize = 0;
    let ghost all = nodes_view(known@);
    assert(map_view(out@) == table(all.take(0)));
    while i < known.len()
        invariant
            0 <= i <= known@.len(),
            all == nodes_view(known@),
            map_view(out@) == table(all.take(i as int)),
        decreases known@.len() - i,
    {
        let ghost before = map_view(out@);
        assert(all.take(i + 1).drop_last() == all.take(i as int));
        assert(all.take(i + 1).last() == (known@[i as int].0, known@[i as int].1@));
        let node = known[i].1.copy();
        out.insert(known[i].0, node);
        assert(map_view(out@) == before.insert(known@[i as int].0, node@));
        i += 1;
    }
    assert(all.take(i as int) == all);
    out
}

/// Aligns the plugin's records with the host's nodes, and says what has to change for it. A
/// missing record is created, one whose node is gone is deleted, one whose id went to another node
/// is reset, and what an operator entered for a node that is still the same is never overwritten.
/// The records come out in the host's order.
pub fn reconcile_with(host: &Vec<HostNode>, known: Vec<(i64, NodeFin)>, day: &Date) -> (r: (
    Vec<(i64, NodeFin)>,
    Vec<Effect>,
))
    requires
        day.valid(),
    ensures
        nodes_view(r.0@) == aligned(nodes_view(known@), host@, *day),
        effects_view(r.1@) == alignment(nodes_view(known@), host@, *day),
{
    let ghost listed = nodes_view(known@);
    let ghost start = table(listed);
    let ids = ids_of(&known);
    let mut records = by_id(known);
    let mut effects = nothing();
    let mut i: usize = 0;
    assert(host@.take(0) == Seq::<HostNode>::empty());
    while i < host.len()
        invariant
            0 <= i <= host@.len(),
            day.valid(),
            map_view(records@) == settled(start, host@.take(i as int), *day),
            effects_view(effects@) == saves(start, host@.take(i as int), *day),
        decreases host@.len() - i,
    {
        let h = &host[i];
        assert(host@.take(i + 1).drop_last() == host@.take(i as int));
        assert(host@.take(i + 1).last() == *h);
        let ghost before = map_view(records@);
        let next = settle_node(records.get(&h.id), h, day);
        proof {
            if before.contains_key(h.id) {
                assert(found(before, h.id) == Some(records@[h.id]@));
            }
        }
        match next {
            Some(node) => {
                let kept = node.copy();
                records.insert(h.id, node);
                assert(map_view(records@) == before.insert(h.id, node@));
                push_effect(&mut effects, Effect::SaveNode { id: h.id, node: kept });
            },
            None => {
                assert(before.insert(h.id, settle(found(before, h.id), *h, *day)) == before);
            },
        }
        i += 1;
    }
    assert(host@.take(i as int) == host@);
    let ghost full = map_view(records@);
    proof {
        lemma_settled_domain(start, host@, *day);
        lemma_table_domain(listed);
        assert forall|id: i64| #[trigger] records@.contains_key(id) <==> lists(listed, id)
            || lives(host@, id) by {
            assert(full.contains_key(id) <==> start.contains_key(id) || lives(host@, id));
            assert(start.contains_key(id) <==> lists(listed, id));
        }
    }
    remove_stale(host, &ids, &mut records, &mut effects, Ghost(listed));
    let out = take_in_order(host, records, Ghost(full));
    (out, effects)
}

/// The ids of a list of records.
fn ids_of(known: &Vec<(i64, NodeFin)>) -> (r: Vec<i64>)
    ensures
        r@.len() == known@.len(),
        forall|k: int| 0 <= k < known@.len() ==> #[trigger] r@[k] == nodes_view(known@)[k].0,
{
    let mut out: Vec<i64> = Vec::new();
    let mut i: usize = 0;
    while i < known.len()
        invariant
            0 <= i <= known@.len(),
            out@.len() == i,
            forall|k: int| 0 <= k < i ==> #[trigger] out@[k] == nodes_view(known@)[k].0,
        decreases known@.len() - i,
    {
        out.push(known[i].0);
        i += 1;
    }
    out
}

/// Takes the records about nodes that the host has no longer out of a table.
fn remove_stale(
    host: &Vec<HostNode>,
    ids: &Vec<i64>,
    records: &mut HashMap<i64, NodeFin>,
    effects: &mut Vec<Effect>,
    Ghost(listed): Ghost<Seq<(i64, NodeView)>>,
)
    requires
        ids@.len() == listed.len(),
        forall|k: int| 0 <= k < listed.len() ==> #[trigger] ids@[k] == listed[k].0,
        forall|id: i64| #[trigger] old(records)@.contains_key(id)
            <==> lists(listed, id) || lives(host@, id),
    ensures
        forall|id: i64| #[trigger] final(records)@.contains_key(id) <==> lives(host@, id),
        forall|id: i64| lives(host@, id) ==> #[trigger] final(records)@[id] == old(records)@[id],
        effects_view(final(effects)@) == effects_view(old(effects)@) + removals(listed, host@),
{
    let mut i: usize = 0;
    let ghost start = records@;
    let ghost done = effects_view(effects@);
    assert(listed.take(0) == Seq::<(i64, NodeView)>::empty());
    assert(done + removals(listed.take(0), host@) == done);
    while i < ids.len()
        invariant
            0 <= i <= ids@.len(),
            ids@.len() == listed.len(),
            forall|k: int| 0 <= k < listed.len() ==> #[trigger] ids@[k] == listed[k].0,
            forall|id: i64| #[trigger] start.contains_key(id)
                <==> lists(listed, id) || lives(host@, id),
            forall|id: i64| #[trigger] records@.contains_key(id)
                <==> start.contains_key(id) && (lives(host@, id) || !lists(listed.take(i as int), id)),
            forall|id: i64| records@.contains_key(id) ==> #[trigger] records@[id] == start[id],
            effects_view(effects@) == done + removals(listed.take(i as int), host@),
        decreases ids@.len() - i,
    {
        let id = ids[i];
        let ghost part = listed.take(i as int);
        let ghost more = listed.take(i + 1);
        assert(more.drop_last() == part);
        assert(more.last() == listed[i as int]);
        proof {
            lemma_lists_step(more);
            assert(lists(listed, id)) by {
                assert(listed[i as int].0 == id);
            }
        }
        if !is_live(host, id) {
            let was = records.remove(&id);
            if was.is_some() {
                push_effect(effects, Effect::DeleteNode { id });
                assert(!lists(part, id));
                assert(effects_view(effects@) == done + removals(more, host@));
            } else {
                assert(lists(part, id));
            }
        }
        i += 1;
    }
    assert(listed.take(i as int) == listed);
    assert(forall|id: i64| #[trigger] records@.contains_key(id) <==> lives(host@, id));
}

proof fn lemma_lists_step(known: Seq<(i64, NodeView)>)
    requires
        known.len() > 0,
    ensures
        forall|id: i64| #[trigger] lists(known, id)
            <==> lists(known.drop_last(), id) || known.last().0 == id,
{
    assert forall|id: i64| #[trigger] lists(known, id)
        <==> lists(known.drop_last(), id) || known.last().0 == id by {
        if lists(known, id) {
            let i = choose|i: int| 0 <= i < known.len() && (#[trigger] known[i]).0 == id;
            if i < known.len() - 1 {
                assert(known.drop_last()[i].0 == id);
            }
        }
        if lists(known.drop_last(), id) {
            let i = choose|i: int|
                0 <= i < known.drop_last().len() && (#[trigger] known.drop_last()[i]).0 == id;
            assert(known[i].0 == id);
        }
        if known.last().0 == id {
            assert(known[known.len() - 1].0 == id);
        }
    }
}

proof fn lemma_lives_step(host: Seq<HostNode>)
    requires
        host.len() > 0,
    ensures
        forall|id: i64| #[trigger] lives(host, id)
            <==> lives(host.drop_last(), id) || host.last().id == id,
{
    assert forall|id: i64| #[trigger] lives(host, id)
        <==> lives(host.drop_last(), id) || host.last().id == id by {
        if lives(host, id) {
            let i = choose|i: int| 0 <= i < host.len() && (#[trigger] host[i]).id == id;
            if i < host.len() - 1 {
                assert(host.drop_last()[i].id == id);
            }
        }
        if lives(host.drop_last(), id) {
            let i = choose|i: int|
                0 <= i < host.drop_last().len() && (#[trigger] host.drop_last()[i]).id == id;
            assert(host[i].id == id);
        }
        if host.last().id == id {
            assert(host[host.len() - 1].id == id);
        }
    }
}

proof fn lemma_table_domain(known: Seq<(i64, NodeView)>)
    ensures
        forall|id: i64| #[trigger] table(known).contains_key(id) <==> lists(known, id),
    decreases known.len(),
{
    if known.len() > 0 {
        lemma_table_domain(known.drop_last());
        lemma_lists_step(known);
        assert forall|id: i64| #[trigger] table(known).contains_key(id) <==> lists(known, id) by {
            assert(table(known.drop_last()).contains_key(id) <==> lists(known.drop_last(), id));
        }
    }
}

proof fn lemma_settled_domain(records: Map<i64, NodeView>, host: Seq<HostNode>, day: Date)
    ensures
        forall|id: i64| #[trigger] settled(records, host, day).contains_key(id)
            <==> records.contains_key(id) || lives(host, id),
    decreases host.len(),
{
    if host.len() > 0 {
        lemma_settled_domain(records, host.drop_last(), day);
        lemma_lives_step(host);
        assert forall|id: i64| #[trigger] settled(records, host, day).contains_key(id)
            <==> records.contains_key(id) || lives(host, id) by {
            assert(settled(records, host.drop_last(), day).contains_key(id)
                <==> records.contains_key(id)
                || lives(host.drop_last(), id));
        }
    }
}

/// Takes records out of a table in the order in which the host has their nodes.
fn take_in_order(
    host: &Vec<HostNode>,
    records: HashMap<i64, NodeFin>,
    Ghost(full): Ghost<Map<i64, NodeView>>,
) -> (r: Vec<(i64, NodeFin)>)
    requires
        forall|id: i64| #[trigger] records@.contains_key(id) <==> lives(host@, id),
        forall|id: i64| lives(host@, id) ==> (#[trigger] records@[id])@ == full[id],
    ensures
        nodes_view(r@) == in_host_order(full, host@),
{
    let mut records = records;
    let ghost start = records@;
    let mut out: Vec<(i64, NodeFin)> = Vec::new();
    let mut i: usize = 0;
    assert(host@.take(0) == Seq::<HostNode>::empty());
    assert(nodes_view(out@) == in_host_order(full, host@.take(0)));
    while i < host.len()
        invariant
            0 <= i <= host@.len(),
            forall|id: i64| #[trigger] start.contains_key(id) <==> lives(host@, id),
            forall|id: i64| lives(host@, id) ==> (#[trigger] start[id])@ == full[id],
            forall|id: i64| #[trigger] records@.contains_key(id)
                <==> start.contains_key(id) && !lives(host@.take(i as int), id),
            forall|id: i64| records@.contains_key(id) ==> #[trigger] records@[id] == start[id],
            nodes_view(out@) == in_host_order(full, host@.take(i as int)),
        decreases host@.len() - i,
    {
        let id = host[i].id;
        let ghost part = host@.take(i as int);
        let ghost more = host@.take(i + 1);
        assert(more.drop_last() == part);
        assert(more.last() == host@[i as int]);
        proof {
            lemma_lives_step(more);
            assert(lives(host@, id)) by {
                assert(host@[i as int].id == id);
            }
        }
        let ghost before = nodes_view(out@);
        if let Some(node) = records.remove(&id) {
            out.push((id, node));
            assert(node@ == full[id]);
            assert(nodes_view(out@) == before.push((id, node@)));
        }
        i += 1;
    }
    assert(host@.take(i as int) == host@);
    out
}

// ---------------------------------------------------------------------------
// What aligning promises
// ---------------------------------------------------------------------------

/// Whether no two nodes of the host share an id.
pub open spec fn distinct(host: Seq<HostNode>) -> bool {
    forall|i: int, j: int|
        0 <= i < host.len() && 0 <= j < host.len() && i != j ==> (#[trigger] host[i]).id != (
        #[trigger] host[j]).id
}

proof fn lemma_distinct_prefix(host: Seq<HostNode>)
    requires
        distinct(host),
        host.len() > 0,
    ensures
        distinct(host.drop_last()),
{
    let init = host.drop_last();
    assert forall|i: int, j: int|
        0 <= i < init.len() && 0 <= j < init.len() && i != j implies (#[trigger] init[i]).id != (
    #[trigger] init[j]).id by {
        assert(host[i].id != host[j].id);
    }
}

/// Whether a change is to the record of a node.
pub open spec fn touches(effect: EffectView, id: i64) -> bool {
    effect == (EffectView::DeleteNode { id }) || (effect matches EffectView::SaveNode { id: to, .. } && to
        == id)
}

/// Each node of the host settles with the record that was there before, and no other record
/// changes its value.
pub proof fn law_each_node_settles_once(
    records: Map<i64, NodeView>,
    host: Seq<HostNode>,
    day: Date,
    id: i64,
)
    requires
        distinct(host),
    ensures
        !lives(host, id) ==> found(settled(records, host, day), id) == found(records, id),
        forall|i: int|
            0 <= i < host.len() && (#[trigger] host[i]).id == id ==> found(
                settled(records, host, day),
                id,
            ) == Some(settle(found(records, id), host[i], day)),
    decreases host.len(),
{
    if host.len() > 0 {
        let init = host.drop_last();
        lemma_distinct_prefix(host);
        law_each_node_settles_once(records, init, day, id);
        lemma_lives_step(host);
        assert forall|i: int| 0 <= i < host.len() && (#[trigger] host[i]).id == id implies found(
            settled(records, host, day),
            id,
        ) == Some(settle(found(records, id), host[i], day)) by {
            if i < host.len() - 1 {
                assert(init[i].id == id);
                assert(host.last().id != id) by {
                    assert(host[host.len() - 1].id != host[i].id);
                }
            } else {
                assert(!lives(init, id)) by {
                    if lives(init, id) {
                        let k = choose|k: int| 0 <= k < init.len() && (#[trigger] init[k]).id == id;
                        assert(host[k].id == host[i].id);
                    }
                }
            }
        }
    }
}

/// The aligned records are those of the host's nodes, in the host's order, each the one that its
/// node settles with.
pub proof fn law_alignment_mirrors_the_host(
    known: Seq<(i64, NodeView)>,
    host: Seq<HostNode>,
    day: Date,
)
    requires
        distinct(host),
    ensures
        aligned(known, host, day).len() == host.len(),
        forall|i: int|
            0 <= i < host.len() ==> #[trigger] aligned(known, host, day)[i] == (
                host[i].id,
                settle(found(table(known), host[i].id), host[i], day),
            ),
{
    let full = settled(table(known), host, day);
    lemma_host_order(full, host);
    assert forall|i: int| 0 <= i < host.len() implies #[trigger] aligned(known, host, day)[i] == (
        host[i].id,
        settle(found(table(known), host[i].id), host[i], day),
    ) by {
        law_each_node_settles_once(table(known), host, day, host[i].id);
    }
}

proof fn lemma_host_order(records: Map<i64, NodeView>, host: Seq<HostNode>)
    requires
        distinct(host),
    ensures
        in_host_order(records, host).len() == host.len(),
        forall|i: int|
            0 <= i < host.len() ==> #[trigger] in_host_order(records, host)[i] == (
                host[i].id,
                records[host[i].id],
            ),
    decreases host.len(),
{
    if host.len() > 0 {
        let init = host.drop_last();
        lemma_distinct_prefix(host);
        lemma_host_order(records, init);
        let id = host.last().id;
        if lives(init, id) {
            let k = choose|k: int| 0 <= k < init.len() && (#[trigger] init[k]).id == id;
            assert(host[k].id == host[host.len() - 1].id);
        }
        assert forall|i: int| 0 <= i < host.len() implies #[trigger] in_host_order(records, host)[i]
            == (host[i].id, records[host[i].id]) by {
            if i < host.len() - 1 {
                assert(in_host_order(records, init)[i] == (init[i].id, records[init[i].id]));
            }
        }
    }
}

proof fn lemma_no_save(records: Map<i64, NodeView>, host: Seq<HostNode>, day: Date, i: int)
    requires
        distinct(host),
        0 <= i < host.len(),
        !unsettled(found(records, host[i].id), host[i]),
    ensures
        forall|k: int|
            0 <= k < saves(records, host, day).len() ==> !touches(
                #[trigger] saves(records, host, day)[k],
                host[i].id,
            ),
    decreases host.len(),
{
    let init = host.drop_last();
    let last = host.last();
    let id = host[i].id;
    lemma_distinct_prefix(host);
    lemma_saves_are_live(records, init, day);
    if i < host.len() - 1 {
        assert(init[i] == host[i]);
        lemma_no_save(records, init, day, i);
        assert(host[host.len() - 1].id != host[i].id);
    } else {
        assert(!lives(init, id)) by {
            if lives(init, id) {
                let k = choose|k: int| 0 <= k < init.len() && (#[trigger] init[k]).id == id;
                assert(host[k].id == host[i].id);
            }
        }
        law_each_node_settles_once(records, init, day, id);
        assert forall|k: int| 0 <= k < saves(records, host, day).len() implies !touches(
            #[trigger] saves(records, host, day)[k],
            id,
        ) by {
            assert(saves(records, init, day)[k] matches EffectView::SaveNode { id: to, .. } && lives(
                init,
                to,
            ));
        }
    }
}

proof fn lemma_saves_are_live(records: Map<i64, NodeView>, host: Seq<HostNode>, day: Date)
    ensures
        forall|k: int|
            0 <= k < saves(records, host, day).len() ==> (#[trigger] saves(
                records,
                host,
                day,
            )[k] matches EffectView::SaveNode { id: to, .. } && lives(host, to)),
    decreases host.len(),
{
    if host.len() > 0 {
        lemma_saves_are_live(records, host.drop_last(), day);
        lemma_lives_step(host);
        assert forall|k: int| 0 <= k < saves(records, host, day).len() implies (#[trigger] saves(
            records,
            host,
            day,
        )[k] matches EffectView::SaveNode { id: to, .. } && lives(host, to)) by {
            if k < saves(records, host.drop_last(), day).len() {
                assert(saves(records, host, day)[k] == saves(records, host.drop_last(), day)[k]);
            }
        }
    }
}

/// The records that aligning deletes are those that are there and whose nodes the host has no
/// longer.
pub proof fn law_removals_are_stale(known: Seq<(i64, NodeView)>, host: Seq<HostNode>)
    ensures
        forall|k: int|
            0 <= k < removals(known, host).len() ==> (#[trigger] removals(
                known,
                host,
            )[k] matches EffectView::DeleteNode { id } && lists(known, id) && !lives(host, id)),
        forall|id: i64|
            lists(known, id) && !lives(host, id) ==> removals(known, host).contains(
                #[trigger] removal(id),
            ),
    decreases known.len(),
{
    if known.len() > 0 {
        let init = known.drop_last();
        law_removals_are_stale(init, host);
        lemma_lists_step(known);
        assert forall|k: int| 0 <= k < removals(known, host).len() implies (#[trigger] removals(
            known,
            host,
        )[k] matches EffectView::DeleteNode { id } && lists(known, id) && !lives(host, id)) by {
            if k < removals(init, host).len() {
                assert(removals(known, host)[k] == removals(init, host)[k]);
            }
        }
        assert forall|id: i64| lists(known, id) && !lives(host, id) implies removals(
            known,
            host,
        ).contains(#[trigger] removal(id)) by {
            if lists(init, id) {
                assert(removals(init, host).contains(removal(id)));
                let k = choose|k: int|
                    0 <= k < removals(init, host).len() && removals(init, host)[k] == removal(id);
                assert(removals(known, host)[k] == removal(id));
            } else {
                assert(removals(known, host).last() == removal(id));
            }
        }
    }
}

/// The change that deletes a node's record.
pub open spec fn removal(id: i64) -> EffectView {
    EffectView::DeleteNode { id }
}

/// What an operator entered for a node that is still the same is never overwritten: aligning
/// neither saves nor deletes its record, and hands it on as it is.
pub proof fn law_matching_records_are_kept(
    known: Seq<(i64, NodeView)>,
    host: Seq<HostNode>,
    day: Date,
    i: int,
)
    requires
        distinct(host),
        0 <= i < host.len(),
        found(table(known), host[i].id) matches Some(record) && (host[i].created_at is None
            || record.host_created_at == host[i].created_at),
    ensures
        aligned(known, host, day)[i] == (host[i].id, table(known)[host[i].id]),
        forall|k: int|
            0 <= k < alignment(known, host, day).len() ==> !touches(
                #[trigger] alignment(known, host, day)[k],
                host[i].id,
            ),
{
    law_alignment_mirrors_the_host(known, host, day);
    lemma_no_save(table(known), host, day, i);
    law_removals_are_stale(known, host);
    let kept = saves(table(known), host, day);
    let gone = removals(known, host);
    assert forall|k: int| 0 <= k < alignment(known, host, day).len() implies !touches(
        #[trigger] alignment(known, host, day)[k],
        host[i].id,
    ) by {
        if k < kept.len() {
            assert(alignment(known, host, day)[k] == kept[k]);
        } else {
            assert(alignment(known, host, day)[k] == gone[k - kept.len()]);
            assert(lives(host, host[i].id));
        }
    }
}

/// A record without the moment of its node's creation takes it over and keeps everything else.
pub proof fn law_unmarked_records_are_adopted(
    known: Seq<(i64, NodeView)>,
    host: Seq<HostNode>,
    day: Date,
    i: int,
)
    requires
        distinct(host),
        0 <= i < host.len(),
        host[i].created_at is Some,
        found(table(known), host[i].id) matches Some(record) && record.host_created_at is None,
    ensures
        aligned(known, host, day)[i].1 == (NodeView {
            host_created_at: host[i].created_at,
            ..table(known)[host[i].id]
        }),
{
    law_alignment_mirrors_the_host(known, host, day);
}

/// A record about a node whose id went to another node starts over.
pub proof fn law_reused_ids_start_over(
    known: Seq<(i64, NodeView)>,
    host: Seq<HostNode>,
    day: Date,
    i: int,
)
    requires
        distinct(host),
        0 <= i < host.len(),
        host[i].created_at is Some,
        found(table(known), host[i].id) matches Some(record) && record.host_created_at is Some
            && record.host_created_at != host[i].created_at,
    ensures
        aligned(known, host, day)[i].1 == blank(
            Edition::Reconciling,
            host[i].name@,
            host[i].created_at,
            day,
        ),
{
    law_alignment_mirrors_the_host(known, host, day);
}

proof fn lemma_table_values(known: Seq<(i64, NodeView)>)
    requires
        forall|a: int, b: int|
            0 <= a < known.len() && 0 <= b < known.len() && a != b ==> (#[trigger] known[a]).0 != (
            #[trigger] known[b]).0,
    ensures
        forall|i: int|
            0 <= i < known.len() ==> found(table(known), (#[trigger] known[i]).0) == Some(known[i].1),
    decreases known.len(),
{
    if known.len() > 0 {
        let init = known.drop_last();
        assert forall|a: int, b: int|
            0 <= a < init.len() && 0 <= b < init.len() && a != b implies (#[trigger] init[a]).0 != (
        #[trigger] init[b]).0 by {
            assert(known[a].0 != known[b].0);
        }
        lemma_table_values(init);
        assert forall|i: int| 0 <= i < known.len() implies found(table(known), (#[trigger] known[i]).0)
            == Some(known[i].1) by {
            if i < known.len() - 1 {
                assert(init[i] == known[i]);
                assert(known[known.len() - 1].0 != known[i].0);
            }
        }
    }
}

proof fn lemma_nothing_to_save(records: Map<i64, NodeView>, host: Seq<HostNode>, day: Date)
    requires
        distinct(host),
        forall|i: int|
            0 <= i < host.len() ==> !unsettled(found(records, (#[trigger] host[i]).id), host[i]),
    ensures
        saves(records, host, day) == no_effects(),
    decreases host.len(),
{
    if host.len() > 0 {
        let init = host.drop_last();
        lemma_distinct_prefix(host);
        assert forall|i: int| 0 <= i < init.len() implies !unsettled(
            found(records, (#[trigger] init[i]).id),
            init[i],
        ) by {
            assert(init[i] == host[i]);
        }
        lemma_nothing_to_save(records, init, day);
        let last = host[host.len() - 1];
        assert(!lives(init, last.id)) by {
            if lives(init, last.id) {
                let k = choose|k: int| 0 <= k < init.len() && (#[trigger] init[k]).id == last.id;
                assert(host[k].id == last.id);
            }
        }
        law_each_node_settles_once(records, init, day, last.id);
        assert(!unsettled(found(records, host[host.len() - 1].id), host[host.len() - 1]));
    }
}

/// Aligning a second time changes nothing, on whatever day.
pub proof fn law_alignment_is_stable(
    known: Seq<(i64, NodeView)>,
    host: Seq<HostNode>,
    day: Date,
    later: Date,
)
    requires
        distinct(host),
    ensures
        aligned(aligned(known, host, day), host, later) == aligned(known, host, day),
        alignment(aligned(known, host, day), host, later) == no_effects(),
{
    let first = aligned(known, host, day);
    law_alignment_mirrors_the_host(known, host, day);
    assert forall|a: int, b: int|
        0 <= a < first.len() && 0 <= b < first.len() && a != b implies (#[trigger] first[a]).0 != (
    #[trigger] first[b]).0 by {
        assert(host[a].id != host[b].id);
    }
    lemma_table_values(first);
    assert forall|i: int| 0 <= i < host.len() implies !unsettled(
        found(table(first), (#[trigger] host[i]).id),
        host[i],
    ) by {
        assert(first[i].0 == host[i].id);
    }
    lemma_nothing_to_save(table(first), host, later);
    law_removals_are_stale(first, host);
    assert(removals(first, host).len() == 0) by {
        if removals(first, host).len() > 0 {
            let effect = removals(first, host)[0];
            let id = effect->DeleteNode_id;
            let k = choose|k: int| 0 <= k < first.len() && (#[trigger] first[k]).0 == id;
            assert(host[k].id == id);
        }
    }
    assert(alignment(first, host, later) == no_effects());
    law_alignment_mirrors_the_host(first, host, later);
    assert forall|i: int| 0 <= i < first.len() implies #[trigger] aligned(first, host, later)[i]
        == first[i] by {
        assert(first[i].0 == host[i].id);
    }
    assert(aligned(first, host, later) == first);
}

/// The records that are stored after some changes were made to them.
pub open spec fn applied(
    records: Map<i64, NodeView>,
    effects: Seq<EffectView>,
) -> Map<i64, NodeView>
    decreases effects.len(),
{
    if effects.len() == 0 {
        records
    } else {
        let before = applied(records, effects.drop_last());
        match effects.last() {
            EffectView::SaveNode { id, node } => before.insert(id, node),
            EffectView::DeleteNode { id } => before.remove(id),
            _ => before,
        }
    }
}

proof fn lemma_applied_concat(records: Map<i64, NodeView>, a: Seq<EffectView>, b: Seq<EffectView>)
    ensures
        applied(records, a + b) == applied(applied(records, a), b),
    decreases b.len(),
{
    if b.len() == 0 {
        assert(a + b == a);
    } else {
        lemma_applied_concat(records, a, b.drop_last());
        assert((a + b).drop_last() == a + b.drop_last());
    }
}

proof fn lemma_saves_settle(records: Map<i64, NodeView>, host: Seq<HostNode>, day: Date)
    ensures
        applied(records, saves(records, host, day)) == settled(records, host, day),
    decreases host.len(),
{
    if host.len() > 0 {
        let init = host.drop_last();
        let h = host.last();
        lemma_saves_settle(records, init, day);
        let before = settled(records, init, day);
        let done = saves(records, init, day);
        if unsettled(found(before, h.id), h) {
            assert(saves(records, host, day).drop_last() == done);
        } else {
            assert(before.insert(h.id, settle(found(before, h.id), h, day)) == before);
        }
    }
}

proof fn lemma_removals_remove(
    records: Map<i64, NodeView>,
    known: Seq<(i64, NodeView)>,
    host: Seq<HostNode>,
)
    ensures
        forall|id: i64| #[trigger]
            found(applied(records, removals(known, host)), id) == if lists(known, id) && !lives(
                host,
                id,
            ) {
                None
            } else {
                found(records, id)
            },
    decreases known.len(),
{
    if known.len() > 0 {
        let init = known.drop_last();
        lemma_removals_remove(records, init, host);
        lemma_lists_step(known);
        let done = removals(init, host);
        let last = known.last().0;
        if !lives(host, last) && !lists(init, last) {
            assert(removals(known, host).drop_last() == done);
        }
        assert forall|id: i64| #[trigger]
            found(applied(records, removals(known, host)), id) == if lists(known, id) && !lives(
                host,
                id,
            ) {
                None
            } else {
                found(records, id)
            } by {
            assert(found(applied(records, done), id) == if lists(init, id) && !lives(host, id) {
                None
            } else {
                found(records, id)
            });
        }
    }
}

/// Once the changes are made, what is stored is what was handed on: the records of the host's
/// nodes and no others.
pub proof fn law_what_is_stored_is_what_is_aligned(
    known: Seq<(i64, NodeView)>,
    host: Seq<HostNode>,
    day: Date,
)
    requires
        distinct(host),
    ensures
        applied(table(known), alignment(known, host, day)) == table(aligned(known, host, day)),
{
    let start = table(known);
    let first = aligned(known, host, day);
    let end = applied(start, alignment(known, host, day));
    lemma_applied_concat(start, saves(start, host, day), removals(known, host));
    lemma_saves_settle(start, host, day);
    lemma_removals_remove(settled(start, host, day), known, host);
    lemma_settled_domain(start, host, day);
    lemma_table_domain(known);
    law_alignment_mirrors_the_host(known, host, day);
    assert forall|a: int, b: int|
        0 <= a < first.len() && 0 <= b < first.len() && a != b implies (#[trigger] first[a]).0 != (
    #[trigger] first[b]).0 by {
        assert(host[a].id != host[b].id);
    }
    lemma_table_values(first);
    lemma_table_domain(first);
    assert forall|id: i64| #[trigger] found(end, id) == found(table(first), id) by {
        assert(settled(start, host, day).contains_key(id) <==> start.contains_key(id) || lives(
            host,
            id,
        ));
        assert(start.contains_key(id) <==> lists(known, id));
        assert(table(first).contains_key(id) <==> lists(first, id));
        if lives(host, id) {
            let i = choose|i: int| 0 <= i < host.len() && (#[trigger] host[i]).id == id;
            law_each_node_settles_once(start, host, day, id);
            assert(first[i].0 == id);
        } else if lists(first, id) {
            let i = choose|i: int| 0 <= i < first.len() && (#[trigger] first[i]).0 == id;
            assert(host[i].id == id);
        }
    }
    assert forall|id: i64| #[trigger] end.contains_key(id) <==> table(first).contains_key(id) by {
        assert(found(end, id) == found(table(first), id));
    }
    assert forall|id: i64| end.contains_key(id) implies #[trigger] end[id] == table(first)[id] by {
        assert(found(end, id) == found(table(first), id));
    }
    assert(end == table(first));
}

/// The record of an id is the last one that is listed under it.
pub proof fn law_the_last_record_of_an_id_counts(
    before: Seq<(i64, NodeView)>,
    id: i64,
    node: NodeView,
    behind: Seq<(i64, NodeView)>,
)
    requires
        forall|i: int| 0 <= i < behind.len() ==> (#[trigger] behind[i]).0 != id,
    ensures
        found(table(before.push((id, node)) + behind), id) == Some(node),
        found(table(behind), id) is None,
    decreases behind.len(),
{
    let all = before.push((id, node)) + behind;
    if behind.len() == 0 {
        assert(all == before.push((id, node)));
        assert(all.drop_last() == before);
    } else {
        let init = behind.drop_last();
        assert forall|i: int| 0 <= i < init.len() implies (#[trigger] init[i]).0 != id by {
            assert(behind[i].0 != id);
        }
        law_the_last_record_of_an_id_counts(before, id, node, init);
        assert(all.drop_last() == before.push((id, node)) + init);
        assert(all.last() == behind.last());
        assert(behind[behind.len() - 1].0 != id);
    }
}

/// A node of the host without a record gets a blank one, and a node of the host whose record is
/// about it keeps what an operator entered.
pub proof fn law_which_record_a_node_gets(before: Option<NodeView>, host: HostNode, day: Date)
    ensures
        before is None ==> unsettled(before, host) && settle(before, host, day) == blank(
            Edition::Reconciling,
            host.name@,
            host.created_at,
            day,
        ),
        before matches Some(record) ==> {
            &&& host.created_at is None || record.host_created_at == host.created_at
                ==> !unsettled(before, host) && settle(before, host, day) == record
            &&& host.created_at is Some && record.host_created_at is None ==> unsettled(
                before,
                host,
            ) && settle(before, host, day) == (NodeView {
                host_created_at: host.created_at,
                ..record
            })
            &&& host.created_at is Some && record.host_created_at is Some
                && record.host_created_at != host.created_at ==> unsettled(before, host) && settle(
                before,
                host,
                day,
            ) == blank(Edition::Reconciling, host.name@, host.created_at, day)
        },
{
}

} // verus!
