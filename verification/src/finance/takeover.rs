//! Taking the host's nodes over once, and clearing out what is left of those that are gone.
use vstd::prelude::*;

use crate::calendar::Date;
use crate::finance::effect::{
    effects_view, no_effects, nothing, push_effect, ConfigView, Effect, EffectView,
};
use crate::finance::record::{
    blank, blank_node, copy_text, nodes_view, Config, Edition, NodeFin, NodeView,
};
use crate::finance::roster::lists;
use crate::json::{
    items_in, items_view, opt_pairs_view, pairs_view, read_items, read_texts, texts_in,
};
use crate::text::opt_text;

verus! {

/// A node in the host's answer, as far as it could be read.
#[derive(Debug)]
pub struct HostEntry {
    pub id: Option<i64>,
    pub name: Option<String>,
    pub online: bool,
}

/// A node in the host's answer in the abstract.
pub ghost struct EntryView {
    pub id: Option<i64>,
    pub name: Option<Seq<char>>,
    pub online: bool,
}

impl View for HostEntry {
    type V = EntryView;

    open spec fn view(&self) -> EntryView {
        EntryView { id: self.id, name: opt_text(self.name), online: self.online }
    }
}

/// Nodes in the host's answer in the abstract.
pub open spec fn entries_view(entries: Seq<HostEntry>) -> Seq<EntryView> {
    entries.map_values(|e: HostEntry| e@)
}

/// The nodes in what was read of the host's answer. One is online where it says so.
pub open spec fn entries_of(items: Seq<(Option<i64>, Option<Seq<char>>, Option<bool>)>) -> Seq<
    EntryView,
> {
    items.map_values(
        |i: (Option<i64>, Option<Seq<char>>, Option<bool>)|
            EntryView { id: i.0, name: i.1, online: i.2 == Some(true) },
    )
}

/// The nodes in what was read of the host's answer. One is online where it says so.
pub fn entries_from(items: Vec<(Option<i64>, Option<String>, Option<bool>)>) -> (r: Vec<HostEntry>)
    ensures
        entries_view(r@) == entries_of(items_view(items@)),
{
    let ghost wanted = entries_of(items_view(items@));
    let mut out: Vec<HostEntry> = Vec::new();
    let mut i: usize = 0;
    assert(entries_view(out@) == wanted.take(0));
    while i < items.len()
        invariant
            0 <= i <= items@.len(),
            wanted == entries_of(items_view(items@)),
            entries_view(out@) == wanted.take(i as int),
        decreases items@.len() - i,
    {
        let ghost before = entries_view(out@);
        let item = &items[i];
        let online = match item.2 {
            Some(flag) => flag,
            None => false,
        };
        let entry = HostEntry { id: item.0, name: copy_text(&item.1), online };
        out.push(entry);
        assert(entries_view(out@) == before.push(entry@));
        assert(wanted[i as int] == entry@);
        assert(wanted.take(i + 1) == wanted.take(i as int).push(wanted[i as int]));
        i += 1;
    }
    assert(wanted.take(i as int) == wanted);
    out
}

/// The nodes in the host's answer: the number of bytes that came back, or a code in place of them,
/// and the bytes as text. A code, no bytes, or bytes that are no list say nothing of which nodes
/// there are.
pub open spec fn answered(count: int, body: Seq<char>) -> Option<Seq<EntryView>> {
    if count <= 0 {
        None
    } else {
        match items_in(body, "id"@, "name"@, "online"@) {
            Some(items) => Some(entries_of(items)),
            None => None,
        }
    }
}

/// Nodes in the host's answer in the abstract, where there is an answer.
pub open spec fn entries_found(entries: Option<Vec<HostEntry>>) -> Option<Seq<EntryView>> {
    match entries {
        Some(list) => Some(entries_view(list@)),
        None => None,
    }
}

/// The nodes in the host's answer. A code, no bytes, or bytes that are no list say nothing of which
/// nodes there are.
pub fn host_entries(count: i32, body: &str) -> (r: Option<Vec<HostEntry>>)
    ensures
        entries_found(r) == answered(count as int, body@),
{
    if count <= 0 {
        return None;
    }
    match read_items(body, "id", "name", "online") {
        Some(items) => Some(entries_from(items)),
        None => None,
    }
}

/// The rows that have both a key and data.
pub open spec fn complete_rows(items: Seq<(Option<Seq<char>>, Option<Seq<char>>)>) -> Seq<
    (Seq<char>, Seq<char>),
>
    decreases items.len(),
{
    if items.len() == 0 {
        Seq::empty()
    } else {
        let before = complete_rows(items.drop_last());
        match items.last() {
            (Some(key), Some(data)) => before.push((key, data)),
            _ => before,
        }
    }
}

/// The rows that have both a key and data.
pub fn rows_from(items: Vec<(Option<String>, Option<String>)>) -> (r: Vec<(String, String)>)
    ensures
        pairs_view(r@) == complete_rows(opt_pairs_view(items@)),
{
    let ghost all = opt_pairs_view(items@);
    let mut out: Vec<(String, String)> = Vec::new();
    let mut i: usize = 0;
    assert(pairs_view(out@) == complete_rows(all.take(0)));
    while i < items.len()
        invariant
            0 <= i <= items@.len(),
            all == opt_pairs_view(items@),
            pairs_view(out@) == complete_rows(all.take(i as int)),
        decreases items@.len() - i,
    {
        let ghost before = pairs_view(out@);
        assert(all.take(i + 1).drop_last() == all.take(i as int));
        assert(all.take(i + 1).last() == (opt_text(items@[i as int].0), opt_text(items@[i as int].1)));
        if let Some(key) = &items[i].0 {
            if let Some(data) = &items[i].1 {
                out.push((key.clone(), data.clone()));
                assert(pairs_view(out@) == before.push((key@, data@)));
            }
        }
        i += 1;
    }
    assert(all.take(i as int) == all);
    out
}

/// The rows in a list of the plugin's data. What is no list has none.
pub open spec fn rows_in(document: Seq<char>) -> Seq<(Seq<char>, Seq<char>)> {
    match texts_in(document, "key"@, "data"@) {
        Some(items) => complete_rows(items),
        None => Seq::empty(),
    }
}

/// The rows of a list of the plugin's data that have both a key and data. What is no list has none.
pub fn data_rows(document: &str) -> (r: Vec<(String, String)>)
    ensures
        pairs_view(r@) == rows_in(document@),
{
    match read_texts(document, "key", "data") {
        Some(items) => rows_from(items),
        None => {
            let none: Vec<(String, String)> = Vec::new();
            assert(pairs_view(none@) == rows_in(document@));
            none
        },
    }
}

/// The ids and names of the nodes that have both.
pub open spec fn named(entries: Seq<EntryView>) -> Seq<(i64, Seq<char>)>
    decreases entries.len(),
{
    if entries.len() == 0 {
        Seq::empty()
    } else {
        let before = named(entries.drop_last());
        match (entries.last().id, entries.last().name) {
            (Some(id), Some(name)) => before.push((id, name)),
            _ => before,
        }
    }
}

/// The ids of the nodes that are online.
pub open spec fn online_ids(entries: Seq<EntryView>) -> Seq<i64>
    decreases entries.len(),
{
    if entries.len() == 0 {
        Seq::empty()
    } else {
        let before = online_ids(entries.drop_last());
        match entries.last().id {
            Some(id) => if entries.last().online {
                before.push(id)
            } else {
                before
            },
            None => before,
        }
    }
}

/// Ids and names in the abstract.
pub open spec fn names_view(list: Seq<(i64, String)>) -> Seq<(i64, Seq<char>)> {
    list.map_values(|n: (i64, String)| (n.0, n.1@))
}

/// The ids and names of the nodes that have both.
pub fn nodes_basic(entries: &Vec<HostEntry>) -> (r: Vec<(i64, String)>)
    ensures
        names_view(r@) == named(entries_view(entries@)),
{
    let mut out: Vec<(i64, String)> = Vec::new();
    let mut i: usize = 0;
    let ghost all = entries_view(entries@);
    assert(names_view(out@) == named(all.take(0)));
    while i < entries.len()
        invariant
            0 <= i <= entries@.len(),
            all == entries_view(entries@),
            names_view(out@) == named(all.take(i as int)),
        decreases entries@.len() - i,
    {
        let ghost before = names_view(out@);
        assert(all.take(i + 1).drop_last() == all.take(i as int));
        assert(all.take(i + 1).last() == entries@[i as int]@);
        if let Some(id) = entries[i].id {
            if let Some(name) = &entries[i].name {
                out.push((id, name.clone()));
                assert(names_view(out@) == before.push((id, name@)));
            }
        }
        i += 1;
    }
    assert(all.take(i as int) == all);
    out
}

/// The ids of the nodes that are online.
pub fn online_nodes(entries: &Vec<HostEntry>) -> (r: Vec<i64>)
    ensures
        r@ == online_ids(entries_view(entries@)),
{
    let mut out: Vec<i64> = Vec::new();
    let mut i: usize = 0;
    let ghost all = entries_view(entries@);
    assert(out@ == online_ids(all.take(0)));
    while i < entries.len()
        invariant
            0 <= i <= entries@.len(),
            all == entries_view(entries@),
            out@ == online_ids(all.take(i as int)),
        decreases entries@.len() - i,
    {
        assert(all.take(i + 1).drop_last() == all.take(i as int));
        assert(all.take(i + 1).last() == entries@[i as int]@);
        if let Some(id) = entries[i].id {
            if entries[i].online {
                out.push(id);
            }
        }
        i += 1;
    }
    assert(all.take(i as int) == all);
    out
}

/// The blank records for those nodes of the host that have none.
pub open spec fn imports(
    known: Seq<(i64, NodeView)>,
    nodes: Seq<(i64, Seq<char>)>,
    day: Date,
) -> Seq<
    EffectView,
>
    decreases nodes.len(),
{
    if nodes.len() == 0 {
        no_effects()
    } else {
        let before = imports(known, nodes.drop_last(), day);
        let (id, name) = nodes.last();
        if lists(known, id) {
            before
        } else {
            before.push(
                EffectView::SaveNode { id, node: blank(Edition::Importing, name, None, day) },
            )
        }
    }
}

/// Settings that say that the host's nodes were taken over.
pub open spec fn imported(config: ConfigView) -> ConfigView {
    ConfigView { imported: true, ..config }
}

/// Whether a list of records has one under an id.
fn has_record(known: &Vec<(i64, NodeFin)>, id: i64) -> (r: bool)
    ensures
        r == lists(nodes_view(known@), id),
{
    let ghost all = nodes_view(known@);
    let mut i: usize = 0;
    while i < known.len()
        invariant
            0 <= i <= known@.len(),
            all == nodes_view(known@),
            forall|k: int| 0 <= k < i ==> (#[trigger] all[k]).0 != id,
        decreases known@.len() - i,
    {
        assert(all[i as int].0 == known@[i as int].0);
        if known[i].0 == id {
            return true;
        }
        i += 1;
    }
    false
}

/// Settings after the host's nodes were to be taken over: where the host gave no answer, that is
/// still to be done.
pub open spec fn after_import(config: ConfigView, entries: Option<Seq<EntryView>>) -> ConfigView {
    if entries is None {
        config
    } else {
        imported(config)
    }
}

/// What taking the host's nodes over changes.
pub open spec fn import_effects(
    config: ConfigView,
    known: Seq<(i64, NodeView)>,
    entries: Option<Seq<EntryView>>,
    day: Date,
) -> Seq<EffectView> {
    match entries {
        Some(list) => if config.imported {
            no_effects()
        } else {
            imports(known, named(list), day).push(EffectView::SaveConfig(imported(config)))
        },
        None => no_effects(),
    }
}

/// Takes the host's nodes over, unless that was done before: each node without a record gets a
/// blank one, and the settings say that it was done. Without an answer of the host it is still to
/// be done.
pub fn ensure_imported(
    config: Config,
    known: &Vec<(i64, NodeFin)>,
    entries: &Option<Vec<HostEntry>>,
    day: &Date,
) -> (r: (Config, Vec<Effect>))
    requires
        day.valid(),
    ensures
        r.0@ == after_import(config@, entries_found(*entries)),
        effects_view(r.1@) == import_effects(
            config@,
            nodes_view(known@),
            entries_found(*entries),
            *day,
        ),
{
    let mut effects = nothing();
    if config.imported {
        return (config, effects);
    }
    let list = match entries {
        Some(list) => list,
        None => {
            return (config, effects);
        },
    };
    let nodes = nodes_basic(list);
    let ghost all = names_view(nodes@);
    let mut i: usize = 0;
    assert(all.take(0) == Seq::<(i64, Seq<char>)>::empty());
    while i < nodes.len()
        invariant
            0 <= i <= nodes@.len(),
            day.valid(),
            all == names_view(nodes@),
            effects_view(effects@) == imports(nodes_view(known@), all.take(i as int), *day),
        decreases nodes@.len() - i,
    {
        assert(all.take(i + 1).drop_last() == all.take(i as int));
        assert(all.take(i + 1).last() == (nodes@[i as int].0, nodes@[i as int].1@));
        let id = nodes[i].0;
        if !has_record(known, id) {
            let node = blank_node(Edition::Importing, nodes[i].1.clone(), None, day);
            push_effect(&mut effects, Effect::SaveNode { id, node });
        }
        i += 1;
    }
    assert(all.take(i as int) == all);
    let stored = Config {
        target_currency: config.target_currency.clone(),
        threshold_days: config.threshold_days,
        imported: true,
    };
    push_effect(&mut effects, Effect::SaveConfig(stored));
    (Config { imported: true, ..config }, effects)
}

/// Without an answer of the host nothing is taken over, and the settings do not say that it was.
pub proof fn law_unanswered_imports_are_still_to_be_done(
    config: ConfigView,
    known: Seq<(i64, NodeView)>,
    day: Date,
)
    ensures
        after_import(config, None) == config,
        import_effects(config, known, None, day) == no_effects(),
{
}

/// Taking over never saves a record where there is one.
pub proof fn law_import_keeps_known_records(
    known: Seq<(i64, NodeView)>,
    nodes: Seq<(i64, Seq<char>)>,
    day: Date,
)
    ensures
        forall|k: int|
            0 <= k < imports(known, nodes, day).len() ==> (#[trigger] imports(
                known,
                nodes,
                day,
            )[k] matches EffectView::SaveNode { id, .. } && !lists(known, id)),
    decreases nodes.len(),
{
    if nodes.len() > 0 {
        law_import_keeps_known_records(known, nodes.drop_last(), day);
        assert forall|k: int| 0 <= k < imports(known, nodes, day).len() implies (#[trigger] imports(
            known,
            nodes,
            day,
        )[k] matches EffectView::SaveNode { id, .. } && !lists(known, id)) by {
            if k < imports(known, nodes.drop_last(), day).len() {
                assert(imports(known, nodes, day)[k] == imports(known, nodes.drop_last(), day)[k]);
            }
        }
    }
}

/// After taking over, every node of the host has a record: the one that it had, or the one that
/// was saved.
pub proof fn law_import_covers_the_host(
    known: Seq<(i64, NodeView)>,
    nodes: Seq<(i64, Seq<char>)>,
    day: Date,
    i: int,
)
    requires
        0 <= i < nodes.len(),
    ensures
        lists(known, nodes[i].0) || imports(known, nodes, day).contains(
            EffectView::SaveNode {
                id: nodes[i].0,
                node: blank(Edition::Importing, nodes[i].1, None, day),
            },
        ),
    decreases nodes.len(),
{
    let init = nodes.drop_last();
    let save = EffectView::SaveNode {
        id: nodes[i].0,
        node: blank(Edition::Importing, nodes[i].1, None, day),
    };
    if i < nodes.len() - 1 {
        law_import_covers_the_host(known, init, day, i);
        if !lists(known, nodes[i].0) {
            let k = choose|k: int|
                0 <= k < imports(known, init, day).len() && imports(known, init, day)[k] == save;
            assert(imports(known, nodes, day)[k] == save);
        }
    } else if !lists(known, nodes[i].0) {
        assert(imports(known, nodes, day).last() == save);
    }
}

// ---------------------------------------------------------------------------
// Clearing out
// ---------------------------------------------------------------------------

/// Whether a list of ids and names has an id.
pub open spec fn names_have(nodes: Seq<(i64, Seq<char>)>, id: i64) -> bool {
    exists|i: int| 0 <= i < nodes.len() && (#[trigger] nodes[i]).0 == id
}

/// The ids of the records whose nodes the host has no longer.
pub open spec fn stale(known: Seq<(i64, NodeView)>, nodes: Seq<(i64, Seq<char>)>) -> Seq<i64>
    decreases known.len(),
{
    if known.len() == 0 {
        Seq::empty()
    } else {
        let before = stale(known.drop_last(), nodes);
        if names_have(nodes, known.last().0) {
            before
        } else {
            before.push(known.last().0)
        }
    }
}

fn has_name(nodes: &Vec<(i64, String)>, id: i64) -> (r: bool)
    ensures
        r == names_have(names_view(nodes@), id),
{
    let ghost all = names_view(nodes@);
    let mut i: usize = 0;
    while i < nodes.len()
        invariant
            0 <= i <= nodes@.len(),
            all == names_view(nodes@),
            forall|k: int| 0 <= k < i ==> (#[trigger] all[k]).0 != id,
        decreases nodes@.len() - i,
    {
        assert(all[i as int].0 == nodes@[i as int].0);
        if nodes[i].0 == id {
            return true;
        }
        i += 1;
    }
    false
}

/// The ids of the records whose nodes the host has no longer.
pub fn stale_records(known: &Vec<(i64, NodeFin)>, entries: &Vec<HostEntry>) -> (r: Vec<i64>)
    ensures
        r@ == stale(nodes_view(known@), named(entries_view(entries@))),
{
    let nodes = nodes_basic(entries);
    let ghost all = nodes_view(known@);
    let mut out: Vec<i64> = Vec::new();
    let mut i: usize = 0;
    assert(out@ == stale(all.take(0), names_view(nodes@)));
    while i < known.len()
        invariant
            0 <= i <= known@.len(),
            all == nodes_view(known@),
            out@ == stale(all.take(i as int), names_view(nodes@)),
        decreases known@.len() - i,
    {
        assert(all.take(i + 1).drop_last() == all.take(i as int));
        assert(all.take(i + 1).last().0 == known@[i as int].0);
        if !has_name(&nodes, known[i].0) {
            out.push(known[i].0);
        }
        i += 1;
    }
    assert(all.take(i as int) == all);
    out
}

/// Clearing out spares the record of every node that the host has, and finds every other.
pub proof fn law_stale_records_are_those_without_a_node(
    known: Seq<(i64, NodeView)>,
    nodes: Seq<(i64, Seq<char>)>,
    id: i64,
)
    ensures
        stale(known, nodes).contains(id) <==> lists(known, id) && !names_have(nodes, id),
    decreases known.len(),
{
    if known.len() > 0 {
        let init = known.drop_last();
        law_stale_records_are_those_without_a_node(init, nodes, id);
        if lists(known, id) {
            let i = choose|i: int| 0 <= i < known.len() && (#[trigger] known[i]).0 == id;
            if i < known.len() - 1 {
                assert(init[i].0 == id);
            }
        }
        if lists(init, id) {
            let i = choose|i: int| 0 <= i < init.len() && (#[trigger] init[i]).0 == id;
            assert(known[i].0 == id);
        }
        assert(known[known.len() - 1].0 == known.last().0);
        let before = stale(init, nodes);
        let after = stale(known, nodes);
        if before.contains(id) {
            let k = choose|k: int| 0 <= k < before.len() && before[k] == id;
            assert(after[k] == id);
        }
        if known.last().0 == id && !names_have(nodes, id) {
            assert(after.last() == id);
        }
        if after.contains(id) {
            let k = choose|k: int| 0 <= k < after.len() && after[k] == id;
            if k < before.len() {
                assert(before[k] == id);
            }
        }
    }
}

// ---------------------------------------------------------------------------
// What reading the host's answer promises
// ---------------------------------------------------------------------------

/// A node is taken for online only where the host says so, and keeps its id and name.
pub proof fn law_entries_are_read(
    items: Seq<(Option<i64>, Option<Seq<char>>, Option<bool>)>,
    i: int,
)
    requires
        0 <= i < items.len(),
    ensures
        entries_of(items).len() == items.len(),
        entries_of(items)[i].id == items[i].0,
        entries_of(items)[i].name == items[i].1,
        entries_of(items)[i].online <==> items[i].2 == Some(true),
{
}

/// Nodes are read under `id`, `name` and `online` from an answer with bytes that are a list.
pub proof fn law_answers_are_read_by_name(count: int, body: Seq<char>)
    ensures
        answered(count, body) is Some <==> count > 0 && items_in(
            body,
            "id"@,
            "name"@,
            "online"@,
        ) is Some,
        answered(count, body) matches Some(entries) ==> entries == entries_of(
            items_in(body, "id"@, "name"@, "online"@)->0,
        ),
{
}

/// The nodes to take over are those with an id and a name, each once, in the host's order.
pub proof fn law_named_nodes(before: Seq<EntryView>, entry: EntryView, behind: Seq<EntryView>)
    ensures
        named(before.push(entry) + behind) == named(before) + (match (entry.id, entry.name) {
            (Some(id), Some(name)) => seq![(id, name)],
            _ => Seq::empty(),
        }) + named(behind),
        named(Seq::empty()).len() == 0,
    decreases behind.len(),
{
    let all = before.push(entry) + behind;
    if behind.len() == 0 {
        assert(all == before.push(entry));
        assert(all.drop_last() == before);
    } else {
        law_named_nodes(before, entry, behind.drop_last());
        assert(all.drop_last() == before.push(entry) + behind.drop_last());
        assert(all.last() == behind.last());
    }
}

/// The nodes that are online are those of the answer that say so and have an id.
pub proof fn law_online_nodes(entries: Seq<EntryView>, id: i64)
    ensures
        online_ids(entries).contains(id) <==> exists|i: int|
            0 <= i < entries.len() && (#[trigger] entries[i]).id == Some(id) && entries[i].online,
    decreases entries.len(),
{
    if entries.len() > 0 {
        let init = entries.drop_last();
        let before = online_ids(init);
        let after = online_ids(entries);
        law_online_nodes(init, id);
        assert(entries[entries.len() - 1] == entries.last());
        if before.contains(id) {
            let i = choose|i: int|
                0 <= i < init.len() && (#[trigger] init[i]).id == Some(id) && init[i].online;
            assert(entries[i] == init[i]);
            let k = choose|k: int| 0 <= k < before.len() && before[k] == id;
            assert(after[k] == id);
        }
        if entries.last().id == Some(id) && entries.last().online {
            assert(after.last() == id);
        }
        if after.contains(id) {
            let k = choose|k: int| 0 <= k < after.len() && after[k] == id;
            if k < before.len() {
                assert(before[k] == id);
            }
        }
        if exists|i: int|
            0 <= i < entries.len() && (#[trigger] entries[i]).id == Some(id) && entries[i].online {
            let i = choose|i: int|
                0 <= i < entries.len() && (#[trigger] entries[i]).id == Some(id)
                    && entries[i].online;
            if i < init.len() {
                assert(init[i] == entries[i]);
            }
        }
    }
}

/// The rows of the plugin's data are those with a key and data, each once, in their order, read
/// under `key` and `data`. What is no list has none.
pub proof fn law_complete_rows(
    before: Seq<(Option<Seq<char>>, Option<Seq<char>>)>,
    row: (Option<Seq<char>>, Option<Seq<char>>),
    behind: Seq<(Option<Seq<char>>, Option<Seq<char>>)>,
    document: Seq<char>,
)
    ensures
        complete_rows(before.push(row) + behind) == complete_rows(before) + (match row {
            (Some(key), Some(data)) => seq![(key, data)],
            _ => Seq::empty(),
        }) + complete_rows(behind),
        complete_rows(Seq::empty()).len() == 0,
        texts_in(document, "key"@, "data"@) is None ==> rows_in(document).len() == 0,
        texts_in(document, "key"@, "data"@) matches Some(items) ==> rows_in(document)
            == complete_rows(items),
    decreases behind.len(),
{
    let all = before.push(row) + behind;
    if behind.len() == 0 {
        assert(all == before.push(row));
        assert(all.drop_last() == before);
    } else {
        law_complete_rows(before, row, behind.drop_last(), document);
        assert(all.drop_last() == before.push(row) + behind.drop_last());
        assert(all.last() == behind.last());
    }
}

/// Taking over marks the settings and keeps what an operator chose. It is done once: with the mark
/// nothing is taken over again.
pub proof fn law_taking_over_is_marked(
    config: ConfigView,
    known: Seq<(i64, NodeView)>,
    entries: Seq<EntryView>,
    day: Date,
)
    ensures
        after_import(config, Some(entries)).imported,
        after_import(config, Some(entries)).target_currency == config.target_currency,
        after_import(config, Some(entries)).threshold_days == config.threshold_days,
        config.imported ==> import_effects(config, known, Some(entries), day) == no_effects(),
        !config.imported ==> import_effects(config, known, Some(entries), day).last()
            == EffectView::SaveConfig(after_import(config, Some(entries))) && import_effects(
            config,
            known,
            Some(entries),
            day,
        ).drop_last() == imports(known, named(entries), day),
{
    assert(imports(known, named(entries), day).push(
        EffectView::SaveConfig(imported(config)),
    ).drop_last() == imports(known, named(entries), day));
}

/// Taking over goes node by node: a node without a record gets a blank one under its own name, and
/// nothing is done about one that has a record.
pub proof fn law_imports_go_node_by_node(
    known: Seq<(i64, NodeView)>,
    before: Seq<(i64, Seq<char>)>,
    id: i64,
    name: Seq<char>,
    behind: Seq<(i64, Seq<char>)>,
    day: Date,
)
    ensures
        imports(known, before.push((id, name)) + behind, day) == imports(known, before, day) + (
        if lists(known, id) {
            Seq::empty()
        } else {
            seq![EffectView::SaveNode { id, node: blank(Edition::Importing, name, None, day) }]
        }) + imports(known, behind, day),
        imports(known, Seq::empty(), day).len() == 0,
    decreases behind.len(),
{
    let all = before.push((id, name)) + behind;
    if behind.len() == 0 {
        assert(all == before.push((id, name)));
        assert(all.drop_last() == before);
    } else {
        law_imports_go_node_by_node(known, before, id, name, behind.drop_last(), day);
        assert(all.drop_last() == before.push((id, name)) + behind.drop_last());
        assert(all.last() == behind.last());
    }
}

/// Clearing out goes record by record, and takes up each that the host has no node for.
pub proof fn law_clearing_out_goes_record_by_record(
    before: Seq<(i64, NodeView)>,
    id: i64,
    node: NodeView,
    behind: Seq<(i64, NodeView)>,
    nodes: Seq<(i64, Seq<char>)>,
)
    ensures
        stale(before.push((id, node)) + behind, nodes) == stale(before, nodes) + (if exists|
            i: int,
        |
            0 <= i < nodes.len() && (#[trigger] nodes[i]).0 == id {
            Seq::empty()
        } else {
            seq![id]
        }) + stale(behind, nodes),
        stale(Seq::empty(), nodes).len() == 0,
    decreases behind.len(),
{
    let all = before.push((id, node)) + behind;
    if behind.len() == 0 {
        assert(all == before.push((id, node)));
        assert(all.drop_last() == before);
    } else {
        law_clearing_out_goes_record_by_record(before, id, node, behind.drop_last(), nodes);
        assert(all.drop_last() == before.push((id, node)) + behind.drop_last());
        assert(all.last() == behind.last());
    }
}

} // verus!
