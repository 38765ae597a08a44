//! The host's word that a node was added or deleted.
use vstd::prelude::*;

use crate::calendar::Date;
use crate::finance::effect::{effects_view, no_effects, nothing, only, Effect, EffectView};
use crate::finance::record::{blank, blank_node, Edition, NodeFin, NodeView};

verus! {

/// The host's word that a node was added or deleted.
#[derive(Debug)]
pub enum NodeEvent {
    Added { node_id: i64, name: String, created_at: Option<i64> },
    Deleted { node_id: i64, created_at: Option<i64> },
}

/// The id of the node that an event is about. A made-up event has none that is positive.
pub open spec fn subject(event: NodeEvent) -> Option<i64> {
    let id = match event {
        NodeEvent::Added { node_id, .. } => node_id,
        NodeEvent::Deleted { node_id, .. } => node_id,
    };
    if id > 0 {
        Some(id)
    } else {
        None
    }
}

/// The id of the node that an event is about. A made-up event has none that is positive.
pub fn event_subject(event: &NodeEvent) -> (r: Option<i64>)
    ensures
        r == subject(*event),
{
    let id: i64 = match event {
        NodeEvent::Added { node_id, .. } => *node_id,
        NodeEvent::Deleted { node_id, .. } => *node_id,
    };
    if id > 0 {
        Some(id)
    } else {
        None
    }
}

/// When the node of a record was created, if there is a record that says so.
pub open spec fn created(stored: Option<NodeView>) -> Option<i64> {
    match stored {
        Some(node) => node.host_created_at,
        None => None,
    }
}

/// What an event changes, where `stored` is the record under its id. An added node gets a blank
/// record, unless the record that is there is about it already. The record of a deleted node is
/// deleted, unless it is about another node, or does not say.
pub open spec fn response(
    event: NodeEvent,
    stored: Option<NodeView>,
    day: Date,
) -> Seq<EffectView> {
    match (event, subject(event)) {
        (NodeEvent::Added { name, created_at, .. }, Some(id)) => if stored is None
            || created(stored) != created_at {
            no_effects().push(
                EffectView::SaveNode {
                    id,
                    node: blank(Edition::Reconciling, name@, created_at, day),
                },
            )
        } else {
            no_effects()
        },
        (NodeEvent::Deleted { created_at, .. }, Some(id)) => if created(stored) is Some && created(
            stored,
        ) == created_at {
            no_effects().push(EffectView::DeleteNode { id })
        } else {
            no_effects()
        },
        _ => no_effects(),
    }
}

/// A record in the abstract, if there is one.
pub open spec fn stored_view(stored: Option<NodeFin>) -> Option<NodeView> {
    match stored {
        Some(node) => Some(node@),
        None => None,
    }
}

/// Whether two optional moments are the same.
fn same_moment(a: Option<i64>, b: Option<i64>) -> (r: bool)
    ensures
        r == (a == b),
{
    match (a, b) {
        (Some(x), Some(y)) => x == y,
        (None, None) => true,
        _ => false,
    }
}

/// What an event changes, where `stored` is the record under its id.
pub fn handle_node_event(event: NodeEvent, stored: &Option<NodeFin>, day: &Date) -> (r: Vec<Effect>)
    requires
        day.valid(),
    ensures
        effects_view(r@) == response(event, stored_view(*stored), *day),
{
    let existing = match stored {
        Some(node) => node.host_created_at,
        None => None,
    };
    match event {
        NodeEvent::Added { node_id, name, created_at } => if node_id > 0 && (stored.is_none()
            || !same_moment(existing, created_at)) {
            let node = blank_node(Edition::Reconciling, name, created_at, day);
            only(Effect::SaveNode { id: node_id, node })
        } else {
            nothing()
        },
        NodeEvent::Deleted { node_id, created_at } => if node_id > 0 && existing.is_some()
            && same_moment(existing, created_at) {
            only(Effect::DeleteNode { id: node_id })
        } else {
            nothing()
        },
    }
}

/// An event about no positive id changes nothing.
pub proof fn law_made_up_events_change_nothing(event: NodeEvent, stored: Option<NodeView>, day: Date)
    requires
        subject(event) is None,
    ensures
        response(event, stored, day) == no_effects(),
{
}

/// Being told of an added node a second time changes nothing, whatever was entered since.
pub proof fn law_repeated_additions_change_nothing(
    id: i64,
    name: String,
    created_at: Option<i64>,
    stored: NodeView,
    day: Date,
)
    requires
        stored.host_created_at == created_at,
    ensures
        response(NodeEvent::Added { node_id: id, name, created_at }, Some(stored), day)
            == no_effects(),
{
}

/// An added node without a record gets one, whether the host says when it was created or not.
pub proof fn law_added_nodes_have_records(
    id: i64,
    name: String,
    created_at: Option<i64>,
    day: Date,
)
    requires
        id > 0,
    ensures
        response(NodeEvent::Added { node_id: id, name, created_at }, None, day)
            == no_effects().push(
            EffectView::SaveNode {
                id,
                node: blank(Edition::Reconciling, name@, created_at, day),
            },
        ),
{
}

/// A deletion that comes late never deletes the record of a node that has taken over the id.
pub proof fn law_late_deletions_change_nothing(
    id: i64,
    created_at: Option<i64>,
    stored: NodeView,
    day: Date,
)
    requires
        stored.host_created_at != created_at,
    ensures
        response(NodeEvent::Deleted { node_id: id, created_at }, Some(stored), day) == no_effects(),
{
}

/// What is made for an added node, the word of its deletion deletes.
pub proof fn law_deletion_undoes_addition(id: i64, name: String, created_at: i64, day: Date)
    requires
        id > 0,
    ensures
        response(NodeEvent::Added { node_id: id, name, created_at: Some(created_at) }, None, day)
            == no_effects().push(
            EffectView::SaveNode {
                id,
                node: blank(Edition::Reconciling, name@, Some(created_at), day),
            },
        ),
        response(
            NodeEvent::Deleted { node_id: id, created_at: Some(created_at) },
            Some(blank(Edition::Reconciling, name@, Some(created_at), day)),
            day,
        ) == no_effects().push(EffectView::DeleteNode { id }),
{
}

/// A node that takes over an id gets a blank record of its own, and what was entered for the node
/// before it is gone.
pub proof fn law_new_nodes_start_over(
    id: i64,
    name: String,
    created_at: Option<i64>,
    stored: NodeView,
    day: Date,
)
    requires
        id > 0,
        stored.host_created_at != created_at,
    ensures
        response(NodeEvent::Added { node_id: id, name, created_at }, Some(stored), day)
            == no_effects().push(
            EffectView::SaveNode {
                id,
                node: blank(Edition::Reconciling, name@, created_at, day),
            },
        ),
{
}

/// The record of a deleted node is deleted, where it is about that node.
pub proof fn law_deleted_nodes_lose_their_records(
    id: i64,
    created_at: i64,
    stored: NodeView,
    day: Date,
)
    requires
        id > 0,
        stored.host_created_at == Some(created_at),
    ensures
        response(NodeEvent::Deleted { node_id: id, created_at: Some(created_at) }, Some(stored), day)
            == no_effects().push(EffectView::DeleteNode { id }),
{
}

/// Without a record a deletion changes nothing.
pub proof fn law_deletions_need_a_record(id: i64, created_at: Option<i64>, day: Date)
    ensures
        response(NodeEvent::Deleted { node_id: id, created_at }, None, day) == no_effects(),
{
}

} // verus!
