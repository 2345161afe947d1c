//! What a decision says: the route, the headers, the body, the services' values, the
//! slots and the targets, each from its own place in the payload.
use vstd::prelude::*;

use crate::actions::stated::kept_exactly;
use crate::call::{ExtEntryView, FeatureActivationsView, LimiterHoldView, ReleaseEventKind};
use crate::defaults::route_fold::{
    as_ext, header_updates, hold_of, holds_of, limiter_holds, Nodes, redirect_contacts, route_fold,
    service_ext, target_of, targets_of, unreserved,
};
use crate::json::{
    below, has_step, lists_members, member, member_i64, member_text, members_are_listed_one_way,
    Node, root, Step,
};
use crate::wire::RedirectContactView;

verus! {

/// What a value holds under a path, where it holds anything there.
pub open spec fn at(m: Nodes, path: Seq<Step>) -> Option<Node> {
    if m.dom().contains(path) {
        Some(m[path])
    } else {
        None
    }
}

pub open spec fn text_at(m: Nodes, path: Seq<Step>) -> Option<Seq<char>> {
    match at(m, path) {
        Some(Node::Text(s)) => Some(s),
        _ => None,
    }
}

pub open spec fn integer_at(m: Nodes, path: Seq<Step>) -> Option<int> {
    match at(m, path) {
        Some(Node::Integer(n)) => if i64::MIN <= n <= i64::MAX {
            Some(n)
        } else {
            None
        },
        _ => None,
    }
}

proof fn one_step_down(m: Nodes, step: Step, p: Seq<Step>)
    ensures
        at(below(m, step), p) == at(m, seq![step] + p),
        has_step(m, step) <==> at(m, seq![step]) is Some,
        has_step(m, step) ==> Some(root(below(m, step))) == at(m, seq![step]),
{
    assert(seq![step] + Seq::<Step>::empty() =~= seq![step]);
}

proof fn a_member_is_at_its_key(m: Nodes, key: Seq<char>)
    ensures
        member(m, key) is Some <==> at(m, seq![Step::Key(key)]) is Some,
        member(m, key) is Some ==> Some(root(member(m, key)->0)) == at(m, seq![Step::Key(key)]),
        member_text(m, key) == text_at(m, seq![Step::Key(key)]),
        member_i64(m, key) == integer_at(m, seq![Step::Key(key)]),
{
    one_step_down(m, Step::Key(key), Seq::empty());
}

proof fn a_member_within(m: Nodes, first: Step, key: Seq<char>)
    ensures
        member(below(m, first), key) is Some <==> at(m, seq![first, Step::Key(key)]) is Some,
        member(below(m, first), key) is Some ==> Some(root(member(below(m, first), key)->0)) == at(
            m,
            seq![first, Step::Key(key)],
        ),
        member_text(below(m, first), key) == text_at(m, seq![first, Step::Key(key)]),
        member_i64(below(m, first), key) == integer_at(m, seq![first, Step::Key(key)]),
{
    a_member_is_at_its_key(below(m, first), key);
    one_step_down(m, first, seq![Step::Key(key)]);
    assert(seq![first] + seq![Step::Key(key)] =~= seq![first, Step::Key(key)]);
}

/// A decision routes a call where it names a host, and no port or one that is a
/// port; what it says of the INVITE is what it states under each name.
pub proof fn a_decision_routes_as_it_states(
    payload: Nodes,
    features: Option<FeatureActivationsView>,
    subscriptions: Option<Seq<ReleaseEventKind>>,
    reserved: Seq<Seq<char>>,
)
    ensures
        ({
            let to = Step::Key("destination"@);
            let host = text_at(payload, seq![to, Step::Key("host"@)]);
            let port = at(payload, seq![to, Step::Key("port"@)]);
            let usual = port is None;
            let stated = match port {
                Some(Node::Integer(n)) => 1 <= n <= 65535,
                _ => false,
            };
            let fold = route_fold(payload, features, subscriptions, reserved);
            let f = fold->0;
            &&& fold is Some <==> at(payload, seq![to]) is Some && host is Some && (usual || stated)
            &&& fold is Some ==> {
                &&& f.destination.host == host->0
                &&& usual ==> f.destination.port == 5060
                &&& stated ==> port == Some(Node::Integer(f.destination.port as int))
                &&& f.new_ruri == text_at(payload, seq![Step::Key("new_ruri"@)])
                &&& f.new_from == text_at(payload, seq![Step::Key("new_from"@)])
                &&& f.new_to == text_at(payload, seq![Step::Key("new_to"@)])
                &&& f.callback_context == text_at(payload, seq![Step::Key("callback_context"@)])
                &&& match integer_at(payload, seq![Step::Key("no_answer_timeout_sec"@)]) {
                    Some(n) => f.no_answer is Some && f.no_answer->0 == n,
                    None => f.no_answer is None,
                }
                &&& f.features == features
                &&& f.subscriptions == subscriptions
                &&& match at(payload, seq![Step::Key("update_body"@)]) {
                    Some(Node::Null) => f.body_override is Some && f.body_override->0.len() == 0,
                    Some(Node::Text(s)) => f.body_override == Some(vstd::utf8::encode_utf8(s)),
                    _ => f.body_override is None,
                }
            }
        }),
{
    let to = Step::Key("destination"@);
    a_member_is_at_its_key(payload, "destination"@);
    a_member_is_at_its_key(payload, "new_ruri"@);
    a_member_is_at_its_key(payload, "new_from"@);
    a_member_is_at_its_key(payload, "new_to"@);
    a_member_is_at_its_key(payload, "callback_context"@);
    a_member_is_at_its_key(payload, "no_answer_timeout_sec"@);
    a_member_is_at_its_key(payload, "update_body"@);
    a_member_within(payload, to, "host"@);
    a_member_within(payload, to, "port"@);
}

/// The headers a decision speaks of, each once and in the order of their names: one
/// it states a text for is set to that text, and any other is removed.
pub proof fn headers_are_set_or_removed_as_stated(
    payload: Nodes,
    ms: Seq<(Seq<char>, Nodes)>,
    features: Option<FeatureActivationsView>,
    subscriptions: Option<Seq<ReleaseEventKind>>,
    reserved: Seq<Seq<char>>,
)
    requires
        at(payload, seq![Step::Key("update_headers"@)]) == Some(Node::Object),
        lists_members(ms, below(payload, Step::Key("update_headers"@))),
        route_fold(payload, features, subscriptions, reserved) is Some,
    ensures
        ({
            let f = route_fold(payload, features, subscriptions, reserved)->0;
            &&& f.header_updates.len() == ms.len()
            &&& forall|i: int|
                0 <= i < ms.len() ==> {
                    &&& (#[trigger] f.header_updates[i]).name == ms[i].0
                    &&& f.header_updates[i].value == text_at(
                        payload,
                        seq![Step::Key("update_headers"@), Step::Key(ms[i].0)],
                    )
                }
        }),
{
    let o = below(payload, Step::Key("update_headers"@));
    a_member_is_at_its_key(payload, "update_headers"@);
    members_are_listed_one_way(ms, o);
    let f = route_fold(payload, features, subscriptions, reserved)->0;
    assert forall|i: int| 0 <= i < ms.len() implies {
        &&& (#[trigger] f.header_updates[i]).name == ms[i].0
        &&& f.header_updates[i].value == text_at(
            payload,
            seq![Step::Key("update_headers"@), Step::Key(ms[i].0)],
        )
    } by {
        a_member_within(payload, Step::Key("update_headers"@), ms[i].0);
        assert(member(o, ms[i].0) == Some(ms[i].1));
    }
}

/// What a decision says of nothing it leaves alone: no header, no service's value, no
/// slot and no target comes from a payload that has none.
pub proof fn what_is_not_stated_is_not_done(payload: Nodes, reserved: Seq<Seq<char>>)
    ensures
        at(payload, seq![Step::Key("update_headers"@)]) is None ==> header_updates(payload).len()
            == 0,
        at(payload, seq![Step::Key("service_ext"@)]) is None ==> service_ext(
            payload,
            reserved,
        ).len() == 0,
        at(payload, seq![Step::Key("call_limiter"@)]) is None ==> limiter_holds(payload) is None,
        at(payload, seq![Step::Key("contacts"@)]) is None ==> redirect_contacts(payload).len() == 0,
{
    a_member_is_at_its_key(payload, "update_headers"@);
    a_member_is_at_its_key(payload, "service_ext"@);
    a_member_is_at_its_key(payload, "call_limiter"@);
    a_member_is_at_its_key(payload, "contacts"@);
}

/// What a decision sets for the services: every member it states, under its own name
/// and as stated, but none under a name of the core's.
pub proof fn a_services_value_is_set_as_stated(
    payload: Nodes,
    ms: Seq<(Seq<char>, Nodes)>,
    reserved: Seq<Seq<char>>,
    e: ExtEntryView,
)
    requires
        at(payload, seq![Step::Key("service_ext"@)]) == Some(Node::Object),
        lists_members(ms, below(payload, Step::Key("service_ext"@))),
    ensures
        service_ext(payload, reserved).contains(e) <==> {
            &&& !reserved.contains(e.service_id)
            &&& exists|i: int|
                0 <= i < ms.len() && (#[trigger] ms[i]).0 == e.service_id && ms[i].1 == e.value
        },
{
    let o = below(payload, Step::Key("service_ext"@));
    a_member_is_at_its_key(payload, "service_ext"@);
    members_are_listed_one_way(ms, o);
    let all = ms.map_values(as_ext());
    kept_exactly(all, unreserved(reserved), e);
    if all.contains(e) {
        let i = choose|i: int| 0 <= i < all.len() && all[i] == e;
        assert(ms[i].0 == e.service_id);
    }
    if exists|i: int|
        0 <= i < ms.len() && (#[trigger] ms[i]).0 == e.service_id && ms[i].1 == e.value {
        let i = choose|i: int|
            0 <= i < ms.len() && (#[trigger] ms[i]).0 == e.service_id && ms[i].1 == e.value;
        assert(all[i] == e);
    }
}

/// A slot of a list that reads: it has a name and a limit.
pub open spec fn slot_at(list: Nodes, i: int) -> Option<LimiterHoldView> {
    let id = text_at(list, seq![Step::Index(i), Step::Key("id"@)]);
    let limit = integer_at(list, seq![Step::Index(i), Step::Key("limit"@)]);
    if id is Some && limit is Some {
        Some(LimiterHoldView { limiter_id: id->0, limit: limit->0 as i64 })
    } else {
        None
    }
}

proof fn slots_are_read(list: Nodes, n: nat)
    ensures
        forall|h: LimiterHoldView| #[trigger]
            holds_of(list, n).contains(h) <==> exists|i: int|
                0 <= i < n && #[trigger] slot_at(list, i) == Some(h),
        holds_of(list, n).len() <= n,
    decreases n,
{
    if n > 0 {
        let k = (n - 1) as nat;
        slots_are_read(list, k);
        a_member_within(list, Step::Index(n - 1), "id"@);
        a_member_within(list, Step::Index(n - 1), "limit"@);
        let before = holds_of(list, k);
        let last = slot_at(list, n - 1);
        assert(hold_of(below(list, Step::Index(n - 1))) == last);
        assert forall|h: LimiterHoldView| #[trigger]
            holds_of(list, n).contains(h) <==> exists|i: int|
                0 <= i < n && #[trigger] slot_at(list, i) == Some(h) by {
            if before.contains(h) {
                let i = choose|i: int| 0 <= i < k && #[trigger] slot_at(list, i) == Some(h);
                assert(0 <= i < n);
                let j = choose|j: int| 0 <= j < before.len() && before[j] == h;
                assert(holds_of(list, n)[j] == h);
            }
            if last == Some(h) {
                assert(holds_of(list, n)[before.len() as int] == h);
            }
            if holds_of(list, n).contains(h) {
                let j = choose|j: int| 0 <= j < holds_of(list, n).len() && holds_of(list, n)[j] == h;
                if j < before.len() {
                    assert(before[j] == h);
                    assert(before.contains(h));
                } else {
                    assert(slot_at(list, n - 1) == Some(h));
                }
            }
            if exists|i: int| 0 <= i < n && #[trigger] slot_at(list, i) == Some(h) {
                let i = choose|i: int| 0 <= i < n && #[trigger] slot_at(list, i) == Some(h);
                if i < k {
                    assert(before.contains(h));
                }
            }
        }
    }
}

/// The slots a decision admitted are those of its list that read, of the window it
/// states; without a window or a list there is none.
pub proof fn slots_are_admitted_as_stated(payload: Nodes)
    ensures
        ({
            let by = Step::Key("call_limiter"@);
            let window = integer_at(payload, seq![by, Step::Key("window"@)]);
            let entries = at(payload, seq![by, Step::Key("entries"@)]);
            let listed = match entries {
                Some(Node::List(n)) => true,
                _ => false,
            };
            let r = limiter_holds(payload);
            let list = below(below(payload, by), Step::Key("entries"@));
            &&& r is Some <==> at(payload, seq![by]) is Some && window is Some && listed
            &&& r is Some ==> {
                &&& r->0.window == window->0
                &&& forall|h: LimiterHoldView| #[trigger]
                    r->0.entries.contains(h) <==> exists|i: int|
                        0 <= i < entries->0->List_0 && #[trigger] slot_at(list, i) == Some(h)
            }
        }),
{
    let by = Step::Key("call_limiter"@);
    a_member_is_at_its_key(payload, "call_limiter"@);
    a_member_within(payload, by, "window"@);
    a_member_within(payload, by, "entries"@);
    let list = below(below(payload, by), Step::Key("entries"@));
    if let Some(Node::List(n)) = at(payload, seq![by, Step::Key("entries"@)]) {
        slots_are_read(list, n);
    }
}

/// A target of a list: the address it states, and its preference where that is a
/// number.
pub open spec fn target_at(list: Nodes, i: int) -> Option<RedirectContactView> {
    match text_at(list, seq![Step::Index(i), Step::Key("uri"@)]) {
        Some(uri) => Some(
            RedirectContactView {
                uri,
                q: match at(list, seq![Step::Index(i), Step::Key("q"@)]) {
                    Some(Node::Integer(_)) => Some(
                        below(below(list, Step::Index(i)), Step::Key("q"@)),
                    ),
                    Some(Node::Float) => Some(
                        below(below(list, Step::Index(i)), Step::Key("q"@)),
                    ),
                    _ => None,
                },
            },
        ),
        None => None,
    }
}

proof fn targets_are_read(list: Nodes, n: nat)
    ensures
        forall|c: RedirectContactView| #[trigger]
            targets_of(list, n).contains(c) <==> exists|i: int|
                0 <= i < n && #[trigger] target_at(list, i) == Some(c),
        targets_of(list, n).len() <= n,
    decreases n,
{
    if n > 0 {
        let k = (n - 1) as nat;
        targets_are_read(list, k);
        a_member_within(list, Step::Index(n - 1), "uri"@);
        a_member_within(list, Step::Index(n - 1), "q"@);
        let before = targets_of(list, k);
        let last = target_at(list, n - 1);
        assert(target_of(below(list, Step::Index(n - 1))) == last);
        assert forall|c: RedirectContactView| #[trigger]
            targets_of(list, n).contains(c) <==> exists|i: int|
                0 <= i < n && #[trigger] target_at(list, i) == Some(c) by {
            if before.contains(c) {
                let i = choose|i: int| 0 <= i < k && #[trigger] target_at(list, i) == Some(c);
                assert(0 <= i < n);
                let j = choose|j: int| 0 <= j < before.len() && before[j] == c;
                assert(targets_of(list, n)[j] == c);
            }
            if last == Some(c) {
                assert(targets_of(list, n)[before.len() as int] == c);
            }
            if targets_of(list, n).contains(c) {
                let j = choose|j: int|
                    0 <= j < targets_of(list, n).len() && targets_of(list, n)[j] == c;
                if j < before.len() {
                    assert(before[j] == c);
                    assert(before.contains(c));
                } else {
                    assert(target_at(list, n - 1) == Some(c));
                }
            }
            if exists|i: int| 0 <= i < n && #[trigger] target_at(list, i) == Some(c) {
                let i = choose|i: int| 0 <= i < n && #[trigger] target_at(list, i) == Some(c);
                if i < k {
                    assert(before.contains(c));
                }
            }
        }
    }
}

/// The targets of a redirect are those of its list that state an address.
pub proof fn a_redirect_names_the_targets_stated(payload: Nodes, n: nat)
    requires
        at(payload, seq![Step::Key("contacts"@)]) == Some(Node::List(n)),
    ensures
        ({
            let list = below(payload, Step::Key("contacts"@));
            forall|c: RedirectContactView| #[trigger]
                redirect_contacts(payload).contains(c) <==> exists|i: int|
                    0 <= i < n && #[trigger] target_at(list, i) == Some(c)
        }),
{
    a_member_is_at_its_key(payload, "contacts"@);
    targets_are_read(below(payload, Step::Key("contacts"@)), n);
}

} // verus!
