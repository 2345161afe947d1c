//! Selections shared by the action families: the dialog that holds a relayed
//! request, the methods a dialog takes, and the response a relayed request's
//! originator is owed.
use vstd::prelude::*;

use crate::call::{
    Answers, AnswersView, Call, CallView, Destination, DestinationView, Dialog, DialogView,
    PendingRequest, PendingRequestView, ResponsePlan, ResponsePlanView,
};
use crate::effects::{
    OutboundBody, OutboundBodyView, OutboundSip, OutboundSipView, Provenance, TxnMode,
};
use crate::headers::{sent_by, tag_of, tag_param, via_sent_by};
use crate::lens::{find_leg, find_pending_request, opt_dialog};
use crate::seqs::{find_where, first_where_is, first_where_none, opt_view, views};
use crate::state::get_peer;
use crate::wire::{HostPort, HostPortView, Method, MethodView};

verus! {

/// The dialogs that hold a relayed request under that CSeq.
pub open spec fn holds_pending(cseq: i64) -> spec_fn(DialogView) -> bool {
    |d: DialogView| d.pending(cseq) is Some
}

/// The dialog of a leg that holds the relayed request of that CSeq.
pub open spec fn pending_dialog(c: CallView, leg_id: Seq<char>, cseq: i64) -> Option<DialogView> {
    match c.leg(leg_id) {
        Some(l) => find_where(l.dialogs, holds_pending(cseq)),
        None => None,
    }
}

/// Find the dialog of a leg that holds the relayed request of that CSeq.
#[verifier::loop_isolation(false)]
pub(crate) fn find_pending_dialog<'a>(
    call: &'a Call,
    leg_id: &String,
    cseq: i64,
) -> (r: Option<&'a Dialog>)
    ensures
        opt_dialog(r) == pending_dialog(call@, leg_id@, cseq),
{
    let l = match find_leg(call, leg_id) {
        Some(l) => l,
        None => {
            return None;
        },
    };
    let ghost p = holds_pending(cseq);
    for i in 0..l.dialogs.len()
        invariant
            p == holds_pending(cseq),
            forall|j: int| 0 <= j < i ==> !p(#[trigger] views(l.dialogs@)[j]),
    {
        assert(views(l.dialogs@)[i as int] == l.dialogs@[i as int]@);
        if find_pending_request(&l.dialogs[i], cseq).is_some() {
            proof {
                first_where_is(views(l.dialogs@), p, i as int);
            }
            return Some(&l.dialogs[i]);
        }
    }
    proof {
        first_where_none(views(l.dialogs@), p);
    }
    None
}

/// The methods an ordinary request within a dialog may have.
pub open spec fn in_dialog(m: MethodView) -> bool {
    m != MethodView::Ack && m != MethodView::Cancel && !(m is Other)
}

/// Whether an ordinary request within a dialog may have that method.
pub(crate) fn in_dialog_method(m: &Method) -> (r: bool)
    ensures
        r == in_dialog(m@),
{
    match m {
        Method::Ack => false,
        Method::Cancel => false,
        Method::Other { .. } => false,
        _ => true,
    }
}

/// The CSeq of the INVITE a dialog's requests belong to: the cached one, else
/// the dialog's own.
pub open spec fn invite_cseq(d: DialogView) -> i64 {
    match d.ext.pending_invite_txn {
        Some(t) => t.cseq,
        None => d.sip.local_cseq,
    }
}

/// Read the CSeq of the INVITE a dialog's requests belong to.
pub(crate) fn invite_cseq_from_handle(d: &Dialog) -> (r: i64)
    ensures
        r == invite_cseq(d@),
{
    match &d.ext.pending_invite_txn {
        Some(t) => t.cseq,
        None => d.sip.local_cseq,
    }
}

// ── the originator of a relayed request ─────────────────────────────────
/// Where the responses to a relayed request go.
pub open spec fn origin_address(p: PendingRequestView) -> Option<HostPortView> {
    if p.source_vias.len() > 0 {
        sent_by(p.source_vias[0])
    } else {
        None
    }
}

/// Read where the responses to a relayed request go.
pub(crate) fn read_origin(p: &PendingRequest) -> (r: Option<HostPort>)
    ensures
        opt_view(r) == origin_address(p@),
{
    if p.source_vias.len() > 0 {
        assert(p@.source_vias[0] == p.source_vias@[0]@);
        via_sent_by(p.source_vias[0].as_str())
    } else {
        None
    }
}

/// A response to a relayed request that states no more than its status line.
pub open spec fn snapshot_response(
    p: PendingRequestView,
    status: u16,
    reason: Seq<char>,
) -> ResponsePlanView {
    ResponsePlanView {
        status,
        reason,
        answers: AnswersView::Relayed { snapshot: p },
        cseq: p.inbound_cseq,
        method: p.method,
        to_tag: tag_param(p.source_to),
        contact: false,
        emergency: false,
        body: Seq::empty(),
        content_type: None,
        headers: Seq::empty(),
        redirects: Seq::empty(),
        source_body: None,
    }
}

/// Build a response to a relayed request that states no more than its status
/// line.
pub(crate) fn plain_snapshot_response(
    p: &PendingRequest,
    status: u16,
    reason: &str,
) -> (r: ResponsePlan)
    ensures
        r@ == snapshot_response(p@, status, reason@),
{
    let r = ResponsePlan {
        status,
        reason: reason.to_string(),
        answers: Answers::Relayed { snapshot: p.clone() },
        cseq: p.inbound_cseq,
        method: p.method.clone(),
        to_tag: tag_of(p.source_to.as_str()),
        contact: false,
        emergency: false,
        body: Vec::new(),
        content_type: None,
        headers: Vec::new(),
        redirects: Vec::new(),
        source_body: None,
    };
    assert(views(r.headers@) =~= Seq::empty());
    assert(views(r.redirects@) =~= Seq::empty());
    assert(r.body@ =~= Seq::empty());
    r
}

/// The leg of the originator of what is relayed toward `leg_id`.
pub open spec fn originator(c: CallView, leg_id: Seq<char>) -> Seq<char> {
    match c.peer(leg_id) {
        Some(p) => p,
        None => c.a_leg.leg_id,
    }
}

/// Find the leg of the originator of what is relayed toward `leg_id`.
pub(crate) fn originator_of(call: &Call, leg_id: &String) -> (r: String)
    ensures
        r@ == originator(call@, leg_id@),
{
    match get_peer(call, leg_id) {
        Some(p) => p,
        None => call.a_leg.leg_id.clone(),
    }
}

/// A response to a relayed request, on its server transaction.
pub open spec fn toward_originator(
    plan: ResponsePlanView,
    at: HostPortView,
    leg_id: Seq<char>,
    provenance: Provenance,
) -> OutboundSipView {
    OutboundSipView {
        body: OutboundBodyView::Response { response: plan },
        mode: TxnMode::ServerResponse,
        destination: DestinationView::Address { at },
        leg_id: Some(leg_id),
        provenance,
    }
}

/// Address a response to a relayed request.
pub(crate) fn to_originator(
    plan: ResponsePlan,
    at: HostPort,
    leg_id: &String,
    provenance: Provenance,
) -> (r: OutboundSip)
    ensures
        r@ == toward_originator(plan@, at@, leg_id@, provenance),
{
    OutboundSip {
        body: OutboundBody::Response { response: plan },
        mode: TxnMode::ServerResponse,
        destination: Destination::Address { at },
        leg_id: Some(leg_id.clone()),
        provenance,
    }
}

} // verus!
