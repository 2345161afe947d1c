//! Reading the routes and finals that a consult answers with, and the
//! bookkeeping every applied route entails.
use vstd::prelude::*;

use crate::action::{RuleAction, RuleActionView};
use crate::call::{
    CallModelState, ExtEntry, ExtEntryView, FeatureActivations, FeatureActivationsView, LimiterHold,
    LimiterHoldView, ReleaseEventKind, TimerType, TimerTypeView,
};
use crate::json::{
    below, json_get, json_is_null, json_is_number, json_list, json_members, json_nodes, json_str,
    json_u64, json_clone, member, member_i64, member_text, members_are_listed_one_way, node_integer,
    node_text, object_members, read_i64, read_text, root, Node, Step,
};
use crate::model::{RuleContext, RuleContextView};
use crate::seqs::{keep, keep_complete, keep_sound, keep_step, keep_whole, opt_view, views};
use crate::text::contains_text;
use crate::verbs::add_action;
use crate::wire::{
    HeaderUpdate, HeaderUpdateView, HostPort, HostPortView, RedirectContact, RedirectContactView,
};

verus! {

/// A JSON value as its nodes.
pub type Nodes = Map<Seq<Step>, Node>;

// ── pieces ──────────────────────────────────────────────────────────────
/// The port a decision states: the usual one where it states none; nothing
/// where it states something that is no port.
pub open spec fn stated_port(p: Option<Nodes>) -> Option<u16> {
    match p {
        Some(v) => match node_integer(v, 1, 65535) {
            Some(n) => Some(n as u16),
            None => None,
        },
        None => Some(5060),
    }
}

/// Read the port a decision states.
pub fn read_stated_port(p: Option<&serde_json::Value>) -> (r: Option<u16>)
    ensures
        r == stated_port(
            match p {
                Some(v) => Some(json_nodes(*v)),
                None => None,
            },
        ),
{
    match p {
        Some(v) => match json_u64(v) {
            Some(n) => if 1 <= n && n <= 65535 {
                Some(n as u16)
            } else {
                None
            },
            None => None,
        },
        None => Some(5060),
    }
}

pub open spec fn as_update() -> spec_fn((Seq<char>, Nodes)) -> HeaderUpdateView {
    |m: (Seq<char>, Nodes)| HeaderUpdateView { name: m.0, value: node_text(m.1) }
}

/// The headers a decision sets or removes, in the order of their names: a text
/// sets one, anything else removes it.
pub open spec fn header_updates(payload: Nodes) -> Seq<HeaderUpdateView> {
    match member(payload, "update_headers"@) {
        Some(o) => if root(o) == Node::Object {
            object_members(o).map_values(as_update())
        } else {
            Seq::empty()
        },
        None => Seq::empty(),
    }
}

/// Read the headers a decision sets or removes.
pub fn parse_header_updates(payload: &serde_json::Value) -> (r: Vec<HeaderUpdate>)
    ensures
        views(r@) == header_updates(json_nodes(*payload)),
{
    let mut out: Vec<HeaderUpdate> = Vec::new();
    assert(views(out@) =~= Seq::<HeaderUpdateView>::empty());
    let o = match json_get(payload, "update_headers") {
        Some(o) => o,
        None => {
            return out;
        },
    };
    let ms = match json_members(o) {
        Some(ms) => ms,
        None => {
            return out;
        },
    };
    let ghost all = object_members(json_nodes(*o)).map_values(as_update());
    proof {
        members_are_listed_one_way(views(ms@), json_nodes(*o));
    }
    for i in 0..ms.len()
        invariant
            all == views(ms@).map_values(as_update()),
            views(out@) == all.take(i as int),
    {
        let value = match json_str(&ms[i].value) {
            Some(t) => Some(t.to_string()),
            None => None,
        };
        let u = HeaderUpdate { name: ms[i].name.clone(), value };
        let ghost before = out@;
        out.push(u);
        assert(views(out@) =~= views(before).push(u@));
        assert(views(ms@)[i as int] == ms@[i as int]@);
        assert(all[i as int] == u@);
        assert(all.take(i + 1) =~= all.take(i as int).push(u@));
    }
    assert(all.take(ms@.len() as int) =~= all);
    out
}

pub open spec fn as_ext() -> spec_fn((Seq<char>, Nodes)) -> ExtEntryView {
    |m: (Seq<char>, Nodes)| ExtEntryView { service_id: m.0, value: m.1 }
}

/// An entry whose key is not one of the core's.
pub open spec fn unreserved(reserved: Seq<Seq<char>>) -> spec_fn(ExtEntryView) -> bool {
    |e: ExtEntryView| !reserved.contains(e.service_id)
}

/// The values a decision sets for services, in the order of their ids. A key of
/// the core's is no service's, and no decision writes it.
pub open spec fn service_ext(payload: Nodes, reserved: Seq<Seq<char>>) -> Seq<ExtEntryView> {
    match member(payload, "service_ext"@) {
        Some(o) => if root(o) == Node::Object {
            keep(object_members(o).map_values(as_ext()), unreserved(reserved))
        } else {
            Seq::empty()
        },
        None => Seq::empty(),
    }
}

fn read_service_ext(payload: &serde_json::Value, reserved: &Vec<String>) -> (r: Vec<ExtEntry>)
    ensures
        views(r@) == service_ext(json_nodes(*payload), views(reserved@)),
{
    let mut out: Vec<ExtEntry> = Vec::new();
    assert(views(out@) =~= Seq::<ExtEntryView>::empty());
    let o = match json_get(payload, "service_ext") {
        Some(o) => o,
        None => {
            return out;
        },
    };
    let ms = match json_members(o) {
        Some(ms) => ms,
        None => {
            return out;
        },
    };
    let ghost all = object_members(json_nodes(*o)).map_values(as_ext());
    let ghost p = unreserved(views(reserved@));
    proof {
        members_are_listed_one_way(views(ms@), json_nodes(*o));
    }
    assert(keep(all.take(0), p) =~= Seq::empty());
    for i in 0..ms.len()
        invariant
            p == unreserved(views(reserved@)),
            all == views(ms@).map_values(as_ext()),
            views(out@) == keep(all.take(i as int), p),
    {
        let e = ExtEntry { service_id: ms[i].name.clone(), value: json_clone(&ms[i].value) };
        assert(views(ms@)[i as int] == ms@[i as int]@);
        assert(all[i as int] == e@);
        proof {
            keep_step(all, p, i as int);
        }
        if !contains_text(reserved, &ms[i].name) {
            let ghost before = out@;
            out.push(e);
            assert(views(out@) =~= views(before).push(e@));
        }
    }
    assert(all.take(ms@.len() as int) =~= all);
    out
}

/// The body a decision puts in the place of the caller's: none stated keeps it,
/// null drops it, a text replaces it.
pub open spec fn stated_body(payload: Nodes) -> Option<Seq<u8>> {
    match member(payload, "update_body"@) {
        Some(b) => match root(b) {
            Node::Null => Some(Seq::empty()),
            Node::Text(s) => Some(vstd::utf8::encode_utf8(s)),
            _ => None,
        },
        None => None,
    }
}

fn read_stated_body(payload: &serde_json::Value) -> (r: Option<Vec<u8>>)
    ensures
        opt_view(r) == stated_body(json_nodes(*payload)),
{
    match json_get(payload, "update_body") {
        Some(b) => {
            if json_is_null(b) {
                let none: Vec<u8> = Vec::new();
                assert(none@ =~= Seq::<u8>::empty());
                return Some(none);
            }
            match json_str(b) {
                Some(s) => Some(s.as_bytes_vec()),
                None => None,
            }
        },
        None => None,
    }
}

/// A capacity slot a decision admitted, where it reads.
pub open spec fn hold_of(item: Nodes) -> Option<LimiterHoldView> {
    match (member_text(item, "id"@), member_i64(item, "limit"@)) {
        (Some(id), Some(limit)) => Some(LimiterHoldView { limiter_id: id, limit: limit as i64 }),
        _ => None,
    }
}

/// The slots of the first items of a list that read.
pub open spec fn holds_of(list: Nodes, n: nat) -> Seq<LimiterHoldView>
    decreases n,
{
    if n == 0 {
        Seq::empty()
    } else {
        let before = holds_of(list, (n - 1) as nat);
        match hold_of(below(list, Step::Index(n - 1))) {
            Some(h) => before.push(h),
            None => before,
        }
    }
}

/// Capacity slots held from a window on.
pub struct LimiterHolds {
    pub entries: Vec<LimiterHold>,
    pub window: i64,
}

/// The mathematical value of a [`LimiterHolds`].
pub struct LimiterHoldsView {
    pub entries: Seq<LimiterHoldView>,
    pub window: i64,
}

impl View for LimiterHolds {
    type V = LimiterHoldsView;

    open spec fn view(&self) -> LimiterHoldsView {
        LimiterHoldsView { entries: views(self.entries@), window: self.window }
    }
}

/// The slots a decision admitted.
pub open spec fn limiter_holds(payload: Nodes) -> Option<LimiterHoldsView> {
    match member(payload, "call_limiter"@) {
        Some(o) => match (member_i64(o, "window"@), member(o, "entries"@)) {
            (Some(window), Some(list)) => match root(list) {
                Node::List(n) => Some(
                    LimiterHoldsView { entries: holds_of(list, n), window: window as i64 },
                ),
                _ => None,
            },
            _ => None,
        },
        None => None,
    }
}

fn read_limiter_holds(payload: &serde_json::Value) -> (r: Option<LimiterHolds>)
    ensures
        opt_view(r) == limiter_holds(json_nodes(*payload)),
{
    let o = match json_get(payload, "call_limiter") {
        Some(o) => o,
        None => {
            return None;
        },
    };
    let window = match read_i64(o, "window") {
        Some(n) => n,
        None => {
            return None;
        },
    };
    let list = match json_get(o, "entries") {
        Some(l) => l,
        None => {
            return None;
        },
    };
    let items = match json_list(list) {
        Some(items) => items,
        None => {
            return None;
        },
    };
    let ghost nodes = json_nodes(*list);
    let mut entries: Vec<LimiterHold> = Vec::new();
    assert(views(entries@) =~= holds_of(nodes, 0));
    for i in 0..items.len()
        invariant
            forall|k: int|
                0 <= k < items@.len() ==> json_nodes(#[trigger] items@[k]) == below(
                    nodes,
                    Step::Index(k),
                ),
            views(entries@) == holds_of(nodes, i as nat),
    {
        assert(json_nodes(items@[i as int]) == below(nodes, Step::Index(i as int)));
        let id = read_text(&items[i], "id");
        let limit = read_i64(&items[i], "limit");
        if let Some(limiter_id) = id {
            if let Some(limit) = limit {
                let h = LimiterHold { limiter_id, limit };
                let ghost before = entries@;
                entries.push(h);
                assert(views(entries@) =~= views(before).push(h@));
            }
        }
    }
    Some(LimiterHolds { entries, window })
}

/// The preference of a redirect target, where it is a number.
pub open spec fn preference(item: Nodes) -> Option<Nodes> {
    match member(item, "q"@) {
        Some(q) => if root(q) is Integer || root(q) is Float {
            Some(q)
        } else {
            None
        },
        None => None,
    }
}

/// A target of a redirect, where it names one.
pub open spec fn target_of(item: Nodes) -> Option<RedirectContactView> {
    match member_text(item, "uri"@) {
        Some(uri) => Some(RedirectContactView { uri, q: preference(item) }),
        None => None,
    }
}

pub open spec fn targets_of(list: Nodes, n: nat) -> Seq<RedirectContactView>
    decreases n,
{
    if n == 0 {
        Seq::empty()
    } else {
        let before = targets_of(list, (n - 1) as nat);
        match target_of(below(list, Step::Index(n - 1))) {
            Some(c) => before.push(c),
            None => before,
        }
    }
}

/// The targets of a redirect.
pub open spec fn redirect_contacts(payload: Nodes) -> Seq<RedirectContactView> {
    match member(payload, "contacts"@) {
        Some(list) => match root(list) {
            Node::List(n) => targets_of(list, n),
            _ => Seq::empty(),
        },
        None => Seq::empty(),
    }
}

/// Read the targets of a redirect.
pub fn parse_contacts(payload: &serde_json::Value) -> (r: Vec<RedirectContact>)
    ensures
        views(r@) == redirect_contacts(json_nodes(*payload)),
{
    let mut out: Vec<RedirectContact> = Vec::new();
    assert(views(out@) =~= Seq::<RedirectContactView>::empty());
    let list = match json_get(payload, "contacts") {
        Some(l) => l,
        None => {
            return out;
        },
    };
    let items = match json_list(list) {
        Some(items) => items,
        None => {
            return out;
        },
    };
    let ghost nodes = json_nodes(*list);
    assert(views(out@) =~= targets_of(nodes, 0));
    for i in 0..items.len()
        invariant
            forall|k: int|
                0 <= k < items@.len() ==> json_nodes(#[trigger] items@[k]) == below(
                    nodes,
                    Step::Index(k),
                ),
            views(out@) == targets_of(nodes, i as nat),
    {
        assert(json_nodes(items@[i as int]) == below(nodes, Step::Index(i as int)));
        if let Some(uri) = read_text(&items[i], "uri") {
            let q = match json_get(&items[i], "q") {
                Some(q) => if json_is_number(q) {
                    Some(json_clone(q))
                } else {
                    None
                },
                None => None,
            };
            let c = RedirectContact { uri, q };
            let ghost before = out@;
            out.push(c);
            assert(views(out@) =~= views(before).push(c@));
        }
    }
    out
}

// ── the fold ────────────────────────────────────────────────────────────
/// A route, as a consult answers with it.
pub struct RouteFold {
    pub destination: HostPort,
    pub new_ruri: Option<String>,
    pub new_from: Option<String>,
    pub new_to: Option<String>,
    pub no_answer: Option<i64>,
    pub callback_context: Option<String>,
    pub header_updates: Vec<HeaderUpdate>,
    pub features: Option<FeatureActivations>,
    pub service_ext: Vec<ExtEntry>,
    /// Nothing leaves the call's registry as it is; a list, even an empty one,
    /// replaces it.
    pub subscriptions: Option<Vec<ReleaseEventKind>>,
    pub body_override: Option<Vec<u8>>,
    pub limiter_holds: Option<LimiterHolds>,
}

/// The mathematical value of a [`RouteFold`].
pub struct RouteFoldView {
    pub destination: HostPortView,
    pub new_ruri: Option<Seq<char>>,
    pub new_from: Option<Seq<char>>,
    pub new_to: Option<Seq<char>>,
    pub no_answer: Option<i64>,
    pub callback_context: Option<Seq<char>>,
    pub header_updates: Seq<HeaderUpdateView>,
    pub features: Option<FeatureActivationsView>,
    pub service_ext: Seq<ExtEntryView>,
    pub subscriptions: Option<Seq<ReleaseEventKind>>,
    pub body_override: Option<Seq<u8>>,
    pub limiter_holds: Option<LimiterHoldsView>,
}

impl View for RouteFold {
    type V = RouteFoldView;

    open spec fn view(&self) -> RouteFoldView {
        RouteFoldView {
            destination: self.destination@,
            new_ruri: opt_view(self.new_ruri),
            new_from: opt_view(self.new_from),
            new_to: opt_view(self.new_to),
            no_answer: self.no_answer,
            callback_context: opt_view(self.callback_context),
            header_updates: views(self.header_updates@),
            features: opt_view(self.features),
            service_ext: views(self.service_ext@),
            subscriptions: opt_view(self.subscriptions),
            body_override: opt_view(self.body_override),
            limiter_holds: opt_view(self.limiter_holds),
        }
    }
}

pub open spec fn as_i64(n: Option<int>) -> Option<i64> {
    match n {
        Some(v) => Some(v as i64),
        None => None,
    }
}

/// The route a payload states; nothing where it names no destination.
pub open spec fn route_fold(
    payload: Nodes,
    features: Option<FeatureActivationsView>,
    subscriptions: Option<Seq<ReleaseEventKind>>,
    reserved: Seq<Seq<char>>,
) -> Option<RouteFoldView> {
    match member(payload, "destination"@) {
        Some(d) => match (member_text(d, "host"@), stated_port(member(d, "port"@))) {
            (Some(host), Some(port)) => Some(
                RouteFoldView {
                    destination: HostPortView { host, port },
                    new_ruri: member_text(payload, "new_ruri"@),
                    new_from: member_text(payload, "new_from"@),
                    new_to: member_text(payload, "new_to"@),
                    no_answer: as_i64(member_i64(payload, "no_answer_timeout_sec"@)),
                    callback_context: member_text(payload, "callback_context"@),
                    header_updates: header_updates(payload),
                    features,
                    service_ext: service_ext(payload, reserved),
                    subscriptions,
                    body_override: stated_body(payload),
                    limiter_holds: limiter_holds(payload),
                },
            ),
            _ => None,
        },
        None => None,
    }
}

fn clone_kinds(ks: &Option<Vec<ReleaseEventKind>>) -> (r: Option<Vec<ReleaseEventKind>>)
    ensures
        opt_view(r) == opt_view(*ks),
{
    match ks {
        Some(list) => {
            let mut out: Vec<ReleaseEventKind> = Vec::new();
            for i in 0..list.len()
                invariant
                    out@ == list@.take(i as int),
            {
                out.push(list[i]);
                assert(list@.take(i + 1) =~= list@.take(i as int).push(list@[i as int]));
            }
            assert(list@.take(list@.len() as int) =~= list@);
            Some(out)
        },
        None => None,
    }
}

/// Read a route. The typed members come from where the event was made;
/// `reserved` are the extension keys of the core.
pub fn parse_route_fold(
    payload: &serde_json::Value,
    features: &Option<FeatureActivations>,
    subscriptions: &Option<Vec<ReleaseEventKind>>,
    reserved: &Vec<String>,
) -> (r: Option<RouteFold>)
    ensures
        opt_view(r) == route_fold(
            json_nodes(*payload),
            opt_view(*features),
            opt_view(*subscriptions),
            views(reserved@),
        ),
{
    let d = match json_get(payload, "destination") {
        Some(d) => d,
        None => {
            return None;
        },
    };
    let host = match read_text(d, "host") {
        Some(h) => h,
        None => {
            return None;
        },
    };
    let port = match read_stated_port(json_get(d, "port")) {
        Some(p) => p,
        None => {
            return None;
        },
    };
    Some(
        RouteFold {
            destination: HostPort { host, port },
            new_ruri: read_text(payload, "new_ruri"),
            new_from: read_text(payload, "new_from"),
            new_to: read_text(payload, "new_to"),
            no_answer: read_i64(payload, "no_answer_timeout_sec"),
            callback_context: read_text(payload, "callback_context"),
            header_updates: parse_header_updates(payload),
            features: match features {
                Some(f) => Some(f.clone()),
                None => None,
            },
            service_ext: read_service_ext(payload, reserved),
            subscriptions: clone_kinds(subscriptions),
            body_override: read_stated_body(payload),
            limiter_holds: read_limiter_holds(payload),
        },
    )
}

// ── what every applied route entails ────────────────────────────────────
/// The call is past taking a decision: it is terminating or terminated.
pub open spec fn going_away(ctx: RuleContextView) -> bool {
    ctx.call.state != CallModelState::Active
}

/// Whether a decision lands on a call already going away.
pub fn fold_lands_on_going_away_call(ctx: &RuleContext) -> (r: bool)
    ensures
        r == going_away(ctx@),
{
    ctx.call.state != CallModelState::Active
}

pub open spec fn feature_actions(f: Option<FeatureActivationsView>) -> Seq<RuleActionView> {
    match f {
        Some(f) => seq![
            RuleActionView::arm(TimerTypeView::GlobalDuration, f.platform.max_duration_sec, None),
            RuleActionView::SetFeatures { features: f },
        ],
        None => Seq::empty(),
    }
}

pub open spec fn ext_actions(es: Seq<ExtEntryView>) -> Seq<RuleActionView> {
    if es.len() > 0 {
        seq![RuleActionView::MergeCallExt { ext: es }]
    } else {
        Seq::empty()
    }
}

pub open spec fn subscription_actions(s: Option<Seq<ReleaseEventKind>>) -> Seq<RuleActionView> {
    match s {
        Some(events) => seq![RuleActionView::SetSubscriptions { events }],
        None => Seq::empty(),
    }
}

pub open spec fn hold_actions(
    h: Option<LimiterHoldsView>,
    refresh_sec: i64,
) -> Seq<RuleActionView> {
    match h {
        Some(h) => seq![
            RuleActionView::RecordLimiterHolds { entries: h.entries, window: h.window },
            RuleActionView::arm(TimerTypeView::LimiterRefresh, refresh_sec, None),
        ],
        None => Seq::empty(),
    }
}

/// The bookkeeping of an applied route: its features and the ceiling they set,
/// the services' values, the release registry, and the slots it was admitted
/// on.
pub open spec fn parity_actions(f: RouteFoldView, ctx: RuleContextView) -> Seq<RuleActionView> {
    feature_actions(f.features) + ext_actions(f.service_ext) + subscription_actions(
        f.subscriptions,
    ) + hold_actions(f.limiter_holds, ctx.config.limiter_refresh_sec)
}

fn clone_exts(es: &Vec<ExtEntry>) -> (r: Vec<ExtEntry>)
    ensures
        views(r@) == views(es@),
{
    let mut out: Vec<ExtEntry> = Vec::new();
    for i in 0..es.len()
        invariant
            views(out@) == views(es@).take(i as int),
    {
        let ghost before = out@;
        out.push(es[i].clone());
        assert(views(out@) =~= views(before).push(es@[i as int]@));
        assert(views(es@).take(i + 1) =~= views(es@).take(i as int).push(es@[i as int]@));
    }
    assert(views(es@).take(es@.len() as int) =~= views(es@));
    out
}

fn clone_holds(hs: &Vec<LimiterHold>) -> (r: Vec<LimiterHold>)
    ensures
        views(r@) == views(hs@),
{
    let mut out: Vec<LimiterHold> = Vec::new();
    for i in 0..hs.len()
        invariant
            views(out@) == views(hs@).take(i as int),
    {
        let ghost before = out@;
        out.push(hs[i].clone());
        assert(views(out@) =~= views(before).push(hs@[i as int]@));
        assert(views(hs@).take(i + 1) =~= views(hs@).take(i as int).push(hs@[i as int]@));
    }
    assert(views(hs@).take(hs@.len() as int) =~= views(hs@));
    out
}

/// The bookkeeping of an applied route.
pub fn route_fold_parity_actions(f: &RouteFold, ctx: &RuleContext) -> (r: Vec<RuleAction>)
    ensures
        views(r@) == parity_actions(f@, ctx@),
{
    let mut out: Vec<RuleAction> = Vec::new();
    assert(views(out@) =~= Seq::<RuleActionView>::empty());
    if let Some(features) = &f.features {
        add_action(
            &mut out,
            RuleAction::arm(
                TimerType::GlobalDuration,
                features.platform.max_duration_sec,
                None,
            ),
        );
        add_action(&mut out, RuleAction::SetFeatures { features: features.clone() });
    }
    assert(views(out@) =~= feature_actions(f@.features));
    assert(views(f.service_ext@).len() == f.service_ext@.len());
    if f.service_ext.len() > 0 {
        add_action(&mut out, RuleAction::MergeCallExt { ext: clone_exts(&f.service_ext) });
    }
    assert(views(out@) =~= feature_actions(f@.features) + ext_actions(f@.service_ext));
    if let Some(events) = clone_kinds(&f.subscriptions) {
        add_action(&mut out, RuleAction::SetSubscriptions { events });
    }
    assert(views(out@) =~= feature_actions(f@.features) + ext_actions(f@.service_ext)
        + subscription_actions(f@.subscriptions));
    if let Some(h) = &f.limiter_holds {
        add_action(
            &mut out,
            RuleAction::RecordLimiterHolds { entries: clone_holds(&h.entries), window: h.window },
        );
        add_action(
            &mut out,
            RuleAction::arm(TimerType::LimiterRefresh, ctx.config.limiter_refresh_sec, None),
        );
    }
    assert(views(out@) =~= parity_actions(f@, ctx@));
    out
}

// ── laws ────────────────────────────────────────────────────────────────
/// A route is applied only where it names a host; a port it states must be one,
/// and one it does not state is the usual one.
pub proof fn a_route_names_its_destination(
    payload: Nodes,
    features: Option<FeatureActivationsView>,
    subscriptions: Option<Seq<ReleaseEventKind>>,
    reserved: Seq<Seq<char>>,
)
    requires
        route_fold(payload, features, subscriptions, reserved) is Some,
    ensures
        member(payload, "destination"@) is Some,
        ({
            let d = member(payload, "destination"@)->0;
            let f = route_fold(payload, features, subscriptions, reserved)->0;
            &&& member_text(d, "host"@) == Some(f.destination.host)
            &&& member(d, "port"@) is None ==> f.destination.port == 5060
            &&& member(d, "port"@) is Some ==> f.destination.port != 0
        }),
{
}

/// No decision writes a key of the core's, and every other key it states it
/// writes as stated.
pub proof fn decisions_write_no_reserved_key(payload: Nodes, reserved: Seq<Seq<char>>)
    ensures
        forall|i: int|
            0 <= i < service_ext(payload, reserved).len() ==> !reserved.contains(
                (#[trigger] service_ext(payload, reserved)[i]).service_id,
            ),
        ({
            let stated = service_ext(payload, Seq::empty());
            forall|i: int|
                0 <= i < stated.len() && !reserved.contains((#[trigger] stated[i]).service_id)
                    ==> service_ext(payload, reserved).contains(stated[i])
        }),
{
    match member(payload, "service_ext"@) {
        Some(o) => if root(o) == Node::Object {
            let all = object_members(o).map_values(as_ext());
            let none = unreserved(Seq::empty());
            let p = unreserved(reserved);
            keep_whole(all, none);
            keep_sound(all, p);
            assert forall|i: int|
                0 <= i < all.len() && !reserved.contains((#[trigger] all[i]).service_id) implies keep(
                all,
                p,
            ).contains(all[i]) by {
                assert(p(all[i]));
                keep_complete(all, p, i);
            }
        },
        None => {},
    }
}

} // verus!
