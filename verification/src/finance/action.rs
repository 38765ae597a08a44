//! What an operator does on the page.
use vstd::prelude::*;

use crate::finance::record::{NodeFin, NodeView};
use crate::json::{int_under, number_under, read_int, read_number, read_text, text_under};
use crate::text::{opt_text, same};

verus! {

/// The fields of a node that a request sets. A price stands as the bits of its double.
#[derive(Debug)]
pub struct Edit {
    pub name: Option<String>,
    pub price: Option<u64>,
    pub currency: Option<String>,
    pub billing_cycle: Option<String>,
    pub expires_at: Option<String>,
}

/// A request from the page.
#[derive(Debug)]
pub enum Request {
    SetCurrency { value: Option<String> },
    RefreshFx,
    SaveNode { id: Option<i64>, edit: Edit },
    Other,
}

/// The fields that a request sets, in the abstract.
pub ghost struct EditView {
    pub name: Option<Seq<char>>,
    pub price: Option<u64>,
    pub currency: Option<Seq<char>>,
    pub billing_cycle: Option<Seq<char>>,
    pub expires_at: Option<Seq<char>>,
}

/// A request in the abstract.
pub ghost enum RequestView {
    SetCurrency { value: Option<Seq<char>> },
    RefreshFx,
    SaveNode { id: Option<i64>, edit: EditView },
    Other,
}

impl View for Edit {
    type V = EditView;

    open spec fn view(&self) -> EditView {
        EditView {
            name: opt_text(self.name),
            price: self.price,
            currency: opt_text(self.currency),
            billing_cycle: opt_text(self.billing_cycle),
            expires_at: opt_text(self.expires_at),
        }
    }
}

impl View for Request {
    type V = RequestView;

    open spec fn view(&self) -> RequestView {
        match self {
            Request::SetCurrency { value } => RequestView::SetCurrency { value: opt_text(*value) },
            Request::RefreshFx => RequestView::RefreshFx,
            Request::SaveNode { id, edit } => RequestView::SaveNode { id: *id, edit: edit@ },
            Request::Other => RequestView::Other,
        }
    }
}

/// The request that a document makes: the one that its `action` names.
pub open spec fn request_in(document: Seq<char>) -> RequestView {
    match text_under(document, "action"@) {
        Some(action) => if action == "set_currency"@ {
            RequestView::SetCurrency { value: text_under(document, "value"@) }
        } else if action == "refresh_fx"@ {
            RequestView::RefreshFx
        } else if action == "save_node"@ {
            RequestView::SaveNode {
                id: int_under(document, "id"@),
                edit: EditView {
                    name: text_under(document, "name"@),
                    price: number_under(document, "price"@),
                    currency: text_under(document, "currency"@),
                    billing_cycle: text_under(document, "billing_cycle"@),
                    expires_at: text_under(document, "expires_at"@),
                },
            }
        } else {
            RequestView::Other
        },
        None => RequestView::Other,
    }
}

/// Reads a request. One whose action is not known, or that cannot be read, asks for the page alone.
pub fn read_request(document: &str) -> (r: Request)
    ensures
        r@ == request_in(document@),
{
    match read_text(document, "action") {
        Some(action) => if same(action.as_str(), "set_currency") {
            Request::SetCurrency { value: read_text(document, "value") }
        } else if same(action.as_str(), "refresh_fx") {
            Request::RefreshFx
        } else if same(action.as_str(), "save_node") {
            Request::SaveNode {
                id: read_int(document, "id"),
                edit: Edit {
                    name: read_text(document, "name"),
                    price: read_number(document, "price"),
                    currency: read_text(document, "currency"),
                    billing_cycle: read_text(document, "billing_cycle"),
                    expires_at: read_text(document, "expires_at"),
                },
            }
        } else {
            Request::Other
        },
        None => Request::Other,
    }
}

/// A text, or what stands in for it.
pub open spec fn or_else(value: Option<Seq<char>>, other: Seq<char>) -> Seq<char> {
    match value {
        Some(t) => t,
        None => other,
    }
}

/// A record after an edit: what the edit sets is replaced, and an empty expiry date is none.
pub open spec fn edited(node: NodeView, edit: EditView) -> NodeView {
    NodeView {
        name: or_else(edit.name, node.name),
        price: match edit.price {
            Some(p) => p,
            None => node.price,
        },
        currency: or_else(edit.currency, node.currency),
        billing_cycle: or_else(edit.billing_cycle, node.billing_cycle),
        expires_at: match edit.expires_at {
            Some(t) => if t.len() == 0 {
                None
            } else {
                Some(t)
            },
            None => node.expires_at,
        },
        ..node
    }
}

/// Edits a record: what the edit sets is replaced, and an empty expiry date is none.
pub fn apply_edit(node: NodeFin, edit: Edit) -> (r: NodeFin)
    ensures
        r@ == edited(node@, edit@),
{
    let mut node = node;
    if let Some(v) = edit.name {
        node.name = v;
    }
    if let Some(v) = edit.price {
        node.price = v;
    }
    if let Some(v) = edit.currency {
        node.currency = v;
    }
    if let Some(v) = edit.billing_cycle {
        node.billing_cycle = v;
    }
    if let Some(v) = edit.expires_at {
        node.expires_at = if same(v.as_str(), "") {
            proof {
                reveal_strlit("");
            }
            None
        } else {
            proof {
                reveal_strlit("");
                if v@.len() == 0 {
                    assert(v@ == ""@);
                }
            }
            Some(v)
        };
    }
    node
}

/// An edit leaves alone what it does not set, and never touches which node the record is about,
/// when that was bought, or what was announced of it.
pub proof fn law_edits_keep_the_rest(node: NodeView, edit: EditView)
    ensures
        edited(node, edit).host_created_at == node.host_created_at,
        edited(node, edit).purchased_at == node.purchased_at,
        edited(node, edit).last_notified == node.last_notified,
        edit.name is None ==> edited(node, edit).name == node.name,
        edit.price is None ==> edited(node, edit).price == node.price,
        edit.currency is None ==> edited(node, edit).currency == node.currency,
        edit.billing_cycle is None ==> edited(node, edit).billing_cycle == node.billing_cycle,
        edit.expires_at is None ==> edited(node, edit).expires_at == node.expires_at,
{
}

/// The same edit a second time changes nothing.
pub proof fn law_edits_are_stable(node: NodeView, edit: EditView)
    ensures
        edited(edited(node, edit), edit) == edited(node, edit),
{
}

/// An edit sets each field that it names to its own value. An empty expiry date takes the date
/// away.
pub proof fn law_edits_set_their_fields(node: NodeView, edit: EditView)
    ensures
        edit.name matches Some(v) ==> edited(node, edit).name == v,
        edit.price matches Some(v) ==> edited(node, edit).price == v,
        edit.currency matches Some(v) ==> edited(node, edit).currency == v,
        edit.billing_cycle matches Some(v) ==> edited(node, edit).billing_cycle == v,
        edit.expires_at matches Some(v) ==> edited(node, edit).expires_at == if v.len() > 0 {
            Some(v)
        } else {
            None
        },
{
}

/// A request is the one that its action names, with what stands in the document under the names of
/// its parts. A document without one of the three actions asks for the page alone.
pub proof fn law_requests_are_named(document: Seq<char>)
    ensures
        ({
            let action = text_under(document, "action"@);
            let request = request_in(document);
            &&& action == Some("set_currency"@) ==> request == (RequestView::SetCurrency {
                value: text_under(document, "value"@),
            })
            &&& action == Some("refresh_fx"@) ==> request == RequestView::RefreshFx
            &&& action == Some("save_node"@) ==> (request matches RequestView::SaveNode { id, edit }
                && id == int_under(document, "id"@) && edit.name == text_under(document, "name"@)
                && edit.price == number_under(document, "price"@) && edit.currency == text_under(
                document,
                "currency"@,
            ) && edit.billing_cycle == text_under(document, "billing_cycle"@) && edit.expires_at
                == text_under(document, "expires_at"@))
            &&& action != Some("set_currency"@) && action != Some("refresh_fx"@) && action != Some(
                "save_node"@,
            ) ==> request == RequestView::Other
        }),
{
    reveal_strlit("set_currency");
    reveal_strlit("refresh_fx");
    reveal_strlit("save_node");
    assert("set_currency"@.len() == 12 && "refresh_fx"@.len() == 10 && "save_node"@.len() == 9);
}

} // verus!
