//! What a message says this stack and its peer can do.
use vstd::prelude::*;

use crate::action::{MessageTransformView, RuleActionView};
use crate::actions::dialog_track::with_early_dialog;
use crate::actions::relay_response::{
    body_taken, caller_lines, caller_plan, carried, CarriedView, names_of, numbered, passed,
    reason_of, status_of,
};
use crate::actions::stated::{
    answers_no_relay, either_holds, kept_exactly, numbered_lines, numbering_is_quiet, relays,
    retaining_a_provisional_is_quiet, retaining_an_answer_is_quiet, retiring_is_quiet,
    the_callers_dialog_is_quiet,
};
use crate::actions::{ExecView, WorkView};
use crate::call::{AdvertisedCapabilitiesView, FeatureActivationsView};
use crate::capabilities::{
    all_items, Face, half_line, HeaderName, is_token, name_text, relaying_set, stamped, stated,
    survives_stamp,
};
use crate::headers::{has_header, header_named, header_values, lines_with, name_among};
use crate::model::RuleContextView;
use crate::reliable::{repeats_reliable, tag_or_empty};
use crate::seqs::keep;
use crate::text::{join_text, lower, same_ignoring_case};
use crate::wire::{CapabilitySetView, MethodView, SipHeaderView, SipResponseView};

verus! {

/// What a message says of one capability, where `owned` says whether the message
/// names that header itself, `own` is what this stack declares of it, and `got` are
/// the lines it goes out with: its own line as it stands, else one line of what is
/// declared, else one line of what the peer stated, else none.
pub open spec fn half_goes_out(
    sent: Seq<SipHeaderView>,
    got: Seq<SipHeaderView>,
    name: Seq<char>,
    owned: bool,
    own: Option<Seq<Seq<char>>>,
) -> bool {
    forall|h: SipHeaderView|
        #![trigger sent.contains(h)]
        same_ignoring_case(h.name, name) ==> (sent.contains(h) <==> if owned {
            got.contains(h)
        } else if own is Some {
            h == SipHeaderView { name, value: join_text(keep(own->0, is_token()), ", "@) }
        } else {
            (exists|g: SipHeaderView| #[trigger] got.contains(g) && same_ignoring_case(g.name, name))
                && h == SipHeaderView {
                name,
                value: join_text(all_items(header_values(got, name)), ", "@),
            }
        })
}

/// What the features declare toward a side.
pub open spec fn declares_toward(
    f: Option<FeatureActivationsView>,
    face: Face,
) -> Option<AdvertisedCapabilitiesView> {
    match f {
        Some(f) => match f.advertise_capabilities {
            Some(arm) => if face == Face::Originator {
                arm.toward_originator
            } else {
                arm.toward_originated
            },
            None => None,
        },
        None => None,
    }
}

/// The message names that header itself.
pub open spec fn names_header(hs: Seq<SipHeaderView>, name: Seq<char>) -> bool {
    exists|i: int| 0 <= i < hs.len() && same_ignoring_case((#[trigger] hs[i]).name, name)
}

/// A message that carries a peer's capabilities on: each half as declared where it is
/// declared, and as the peer stated it where it is not. What this stack accepts it
/// never declares.
pub open spec fn capabilities_go_through(
    f: Option<FeatureActivationsView>,
    face: Face,
    sent: Seq<SipHeaderView>,
    got: Seq<SipHeaderView>,
    added: Seq<SipHeaderView>,
) -> bool {
    let d = declares_toward(f, face);
    let allow = if d is Some {
        d->0.allow
    } else {
        None
    };
    let supported = if d is Some {
        d->0.supported
    } else {
        None
    };
    &&& half_goes_out(sent, got, "Allow"@, names_header(added, "Allow"@), allow)
    &&& half_goes_out(sent, got, "Supported"@, names_header(added, "Supported"@), supported)
    &&& half_goes_out(sent, got, "Accept"@, names_header(added, "Accept"@), None)
}

proof fn the_three_names_differ()
    ensures
        !same_ignoring_case("Allow"@, "Supported"@),
        !same_ignoring_case("Allow"@, "Accept"@),
        !same_ignoring_case("Supported"@, "Accept"@),
        !same_ignoring_case("Supported"@, "Allow"@),
        !same_ignoring_case("Accept"@, "Allow"@),
        !same_ignoring_case("Accept"@, "Supported"@),
        !same_ignoring_case("RSeq"@, "Allow"@),
        !same_ignoring_case("RSeq"@, "Supported"@),
        !same_ignoring_case("RSeq"@, "Accept"@),
{
    reveal_strlit("Allow");
    reveal_strlit("Supported");
    reveal_strlit("Accept");
    reveal_strlit("RSeq");
    assert(lower("Allow"@).len() == 5);
    assert(lower("Supported"@).len() == 9);
    assert(lower("Accept"@).len() == 6);
    assert(lower("RSeq"@).len() == 4);
}

proof fn named_as(names: Seq<SipHeaderView>, name: Seq<char>)
    ensures
        name_among(names_of(names), name) == names_header(names, name),
{
    if name_among(names_of(names), name) {
        let i = choose|i: int|
            0 <= i < names_of(names).len() && same_ignoring_case(
                #[trigger] names_of(names)[i],
                name,
            );
        assert(names[i].name == names_of(names)[i]);
    }
    if names_header(names, name) {
        let i = choose|i: int|
            0 <= i < names.len() && same_ignoring_case((#[trigger] names[i]).name, name);
        assert(names_of(names)[i] == names[i].name);
    }
}

proof fn one_half_is_stamped(
    hs: Seq<SipHeaderView>,
    owned: Seq<Seq<char>>,
    caps: CapabilitySetView,
    n: HeaderName,
    h: SipHeaderView,
)
    requires
        same_ignoring_case(h.name, name_text(n)),
    ensures
        ({
            let half = match n {
                HeaderName::Allow => caps.allow,
                HeaderName::Supported => caps.supported,
                HeaderName::Accept => caps.accept,
            };
            stamped(hs, owned, caps).contains(h) <==> if name_among(owned, name_text(n)) {
                hs.contains(h)
            } else {
                half is Some && h == SipHeaderView {
                    name: name_text(n),
                    value: join_text(half->0, ", "@),
                }
            }
        }),
{
    the_three_names_differ();
    let kept = keep(hs, survives_stamp(owned));
    let a = half_line(owned, HeaderName::Allow, caps.allow);
    let b = half_line(owned, HeaderName::Supported, caps.supported);
    let c = half_line(owned, HeaderName::Accept, caps.accept);
    kept_exactly(hs, survives_stamp(owned), h);
    either_holds(kept, a, h);
    either_holds(kept + a, b, h);
    either_holds(kept + a + b, c, h);
    assert(name_among(owned, h.name) == name_among(owned, name_text(n))) by {
        if name_among(owned, h.name) {
            let i = choose|i: int|
                0 <= i < owned.len() && same_ignoring_case(#[trigger] owned[i], h.name);
            assert(same_ignoring_case(owned[i], name_text(n)));
        }
        if name_among(owned, name_text(n)) {
            let i = choose|i: int|
                0 <= i < owned.len() && same_ignoring_case(#[trigger] owned[i], name_text(n));
            assert(same_ignoring_case(owned[i], h.name));
        }
    }
    one_line(owned, HeaderName::Allow, caps.allow, h);
    one_line(owned, HeaderName::Supported, caps.supported, h);
    one_line(owned, HeaderName::Accept, caps.accept, h);
}

proof fn one_line(
    owned: Seq<Seq<char>>,
    n: HeaderName,
    half: Option<Seq<Seq<char>>>,
    h: SipHeaderView,
)
    ensures
        half_line(owned, n, half).contains(h) <==> {
            &&& !name_among(owned, name_text(n))
            &&& half is Some
            &&& h == SipHeaderView { name: name_text(n), value: join_text(half->0, ", "@) }
        },
{
    let ls = half_line(owned, n, half);
    if half is Some && !name_among(owned, name_text(n)) {
        assert(ls[0] == SipHeaderView { name: name_text(n), value: join_text(half->0, ", "@) });
    }
}

proof fn a_stamp_states_the_halves(
    f: Option<FeatureActivationsView>,
    face: Face,
    got: Seq<SipHeaderView>,
    added: Seq<SipHeaderView>,
)
    ensures
        capabilities_go_through(
            f,
            face,
            stamped(got, names_of(added), relaying_set(f, face, got)),
            got,
            added,
        ),
{
    let owned = names_of(added);
    let caps = relaying_set(f, face, got);
    let sent = stamped(got, owned, caps);
    named_as(added, "Allow"@);
    named_as(added, "Supported"@);
    named_as(added, "Accept"@);
    the_peers_half(got, "Allow"@);
    the_peers_half(got, "Supported"@);
    the_peers_half(got, "Accept"@);
    assert forall|h: SipHeaderView| same_ignoring_case(h.name, "Allow"@) implies (
    #[trigger] sent.contains(h) <==> if names_header(added, "Allow"@) {
        got.contains(h)
    } else {
        caps.allow is Some && h == SipHeaderView {
            name: "Allow"@,
            value: join_text(caps.allow->0, ", "@),
        }
    }) by {
        one_half_is_stamped(got, owned, caps, HeaderName::Allow, h);
    }
    assert forall|h: SipHeaderView| same_ignoring_case(h.name, "Supported"@) implies (
    #[trigger] sent.contains(h) <==> if names_header(added, "Supported"@) {
        got.contains(h)
    } else {
        caps.supported is Some && h == SipHeaderView {
            name: "Supported"@,
            value: join_text(caps.supported->0, ", "@),
        }
    }) by {
        one_half_is_stamped(got, owned, caps, HeaderName::Supported, h);
    }
    assert forall|h: SipHeaderView| same_ignoring_case(h.name, "Accept"@) implies (
    #[trigger] sent.contains(h) <==> if names_header(added, "Accept"@) {
        got.contains(h)
    } else {
        caps.accept is Some && h == SipHeaderView {
            name: "Accept"@,
            value: join_text(caps.accept->0, ", "@),
        }
    }) by {
        one_half_is_stamped(got, owned, caps, HeaderName::Accept, h);
    }
}

proof fn the_peers_half(got: Seq<SipHeaderView>, name: Seq<char>)
    ensures
        stated(got, name) is Some <==> exists|g: SipHeaderView| #[trigger]
            got.contains(g) && same_ignoring_case(g.name, name),
        stated(got, name) is Some ==> stated(got, name)->0 == all_items(header_values(got, name)),
{
    if has_header(got, name) {
        let i = choose|i: int| 0 <= i < got.len() && header_named(name)(#[trigger] got[i]);
        assert(got.contains(got[i]));
    }
    if exists|g: SipHeaderView| #[trigger] got.contains(g) && same_ignoring_case(g.name, name) {
        let g = choose|g: SipHeaderView| #[trigger]
            got.contains(g) && same_ignoring_case(g.name, name);
        let i = choose|i: int| 0 <= i < got.len() && got[i] == g;
        assert(header_named(name)(got[i]));
    }
}

/// An answer that reaches the caller says of each capability what is declared toward
/// the caller, and where nothing is, what the callee said.
pub proof fn an_answer_states_what_is_declared(
    x: ExecView,
    w: WorkView,
    ctx: RuleContextView,
    a: RuleActionView,
    t: MessageTransformView,
    resp: SipResponseView,
)
    requires
        relays(w, ctx, a, t),
        ctx.response() == Some(resp),
        resp.method == MethodView::Invite,
        answers_no_relay(ctx, resp),
        !repeats_reliable(w.call, ctx.source_leg_id, resp),
        w.call.a_leg.invite_final_sent is None,
    ensures
        ({
            let r = x.apply(w, a, ctx);
            let sent = r.fx.outbound.last().body->Response_response;
            200 <= sent.status < 300 ==> capabilities_go_through(
                w.call.features,
                Face::Originator,
                sent.headers,
                passed(t, lines_with(resp.relayable, carried(w.call, t, resp).source)),
                t.add_headers,
            )
        }),
{
    reveal(ExecView::apply);
    reveal(ExecView::relay_to_peer);
    reveal(ExecView::relay_to);
    reveal(ExecView::relay_response);
    let c1 = body_taken(w.call, t);
    let w1 = w.on(c1);
    let tag = tag_or_empty(resp.to_tag);
    let b = carried(w.call, t, resp);
    assert(!repeats_reliable(c1, ctx.source_leg_id, resp));
    the_callers_dialog_is_quiet();
    if 100 <= resp.status < 300 && tag.len() > 0 && ctx.source_leg_id != "a"@ {
        reveal(ExecView::relay_fork);
        reveal(with_early_dialog);
        reveal(ExecView::face_for);
        let c2 = with_early_dialog(x.config, c1, ctx.source_leg_id, resp, tag);
        let (w2, face) = x.face_for(w1.on(c2), ctx.source_leg_id, tag);
        the_caller_is_told_what_is_declared(x, w2, ctx, t, resp, b, face, false);
    } else {
        let (w2, face) = x.ensure_a_dialog(w1, None);
        the_caller_is_told_what_is_declared(x, w2, ctx, t, resp, b, face, true);
    }
}

proof fn the_caller_is_told_what_is_declared(
    x: ExecView,
    w: WorkView,
    ctx: RuleContextView,
    t: MessageTransformView,
    resp: SipResponseView,
    b: CarriedView,
    tag: Seq<char>,
    ends_setup: bool,
)
    requires
        w.call.a_leg.invite_final_sent is None,
    ensures
        ({
            let r = x.relay_to_caller(w, ctx, t, resp, b, tag, ends_setup);
            let sent = r.fx.outbound.last().body->Response_response;
            200 <= sent.status < 300 ==> capabilities_go_through(
                w.call.features,
                Face::Originator,
                sent.headers,
                passed(t, lines_with(resp.relayable, b.source)),
                t.add_headers,
            )
        }),
{
    reveal(ExecView::relay_to_caller);
    reveal(ExecView::send_a_leg_answer);
    numbering_is_quiet();
    retiring_is_quiet();
    retaining_an_answer_is_quiet();
    retaining_a_provisional_is_quiet();
    let status = status_of(t, resp);
    let hs = caller_lines(w.call, t, resp, status, b.source);
    let (w1, hs1, own) = numbered(w, tag, w.call.a_leg_invite.cseq, ctx.source_leg_id, resp, hs);
    let r = x.relay_to_caller(w, ctx, t, resp, b, tag, ends_setup);
    let sent = r.fx.outbound.last().body->Response_response;
    assert(sent == caller_plan(w1.call, status, reason_of(t, resp), tag, b, hs1));
    let got = passed(t, lines_with(resp.relayable, b.source));
    if 200 <= status < 300 {
        a_stamp_states_the_halves(w.call.features, Face::Originator, got, t.add_headers);
        numbering_leaves_the_halves(
            w,
            tag,
            w.call.a_leg_invite.cseq,
            ctx.source_leg_id,
            resp,
            hs,
            w.call.features,
            Face::Originator,
            got,
            t.add_headers,
        );
    }
}

proof fn numbering_leaves_the_halves(
    w: WorkView,
    tag: Seq<char>,
    cseq: i64,
    source: Seq<char>,
    resp: SipResponseView,
    hs: Seq<SipHeaderView>,
    f: Option<FeatureActivationsView>,
    face: Face,
    got: Seq<SipHeaderView>,
    added: Seq<SipHeaderView>,
)
    requires
        capabilities_go_through(f, face, hs, got, added),
    ensures
        capabilities_go_through(
            f,
            face,
            numbered(w, tag, cseq, source, resp, hs).1,
            got,
            added,
        ),
{
    the_three_names_differ();
    let hs1 = numbered(w, tag, cseq, source, resp, hs).1;
    assert forall|h: SipHeaderView|
        same_ignoring_case(h.name, "Allow"@) || same_ignoring_case(h.name, "Supported"@)
            || same_ignoring_case(h.name, "Accept"@) implies (#[trigger] hs1.contains(h)
        <==> hs.contains(h)) by {
        numbered_lines(w, tag, cseq, source, resp, hs, h);
    }
}

} // verus!
