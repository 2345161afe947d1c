//! The call as a whole: its timers, cursors, tag map and peering, and what it
//! means for a leg to be resolved.
use vstd::prelude::*;

use crate::call::{
    ByeDisposition, Call, CallModelState, CallView, CdrEvent, CdrEventView, Cursor, CursorView,
    Dialog, DialogView, Leg, LegDisposition, LegState, LegView, PeerPair, PeerPairView,
    PendingRequestView, RelayFirst18xStrategy, TagMapping, TagMappingView, Termination,
    TerminationView, TimerEntry, TimerEntryView,
};
use crate::cursors::{
    a_cursor_put_is_found, in_order, insert_cursor, kept_in_order, put_cursor, put_in_order,
};
use crate::lens::{cursor_named, cursor_not_named, find_leg, is_empty, timer_not_named};
use crate::seqs::{
    any_where,
    find_among_kept,
    find_where,
    first_where,
    first_where_is,
    first_where_none,
    keep,
    keep_sound,
    keep_step,
    opt_view,
    views,
};
use crate::text::contains_text;
use crate::wire::{Method, MethodView};

verus! {

// ── timers ──────────────────────────────────────────────────────────────
impl CallView {
    pub open spec fn without_timer(self, id: Seq<char>) -> CallView {
        CallView { timers: keep(self.timers, timer_not_named(id)), ..self }
    }

    /// The ledger with `entry` in the place of any entry of its id.
    pub open spec fn with_timer(self, entry: TimerEntryView) -> CallView {
        CallView { timers: keep(self.timers, timer_not_named(entry.id)).push(entry), ..self }
    }

    pub open spec fn has_timer(self, id: Seq<char>) -> bool {
        exists|i: int| 0 <= i < self.timers.len() && (#[trigger] self.timers[i]).id == id
    }
}

/// Take every timer of that id off the ledger.
pub fn remove_timer(call: &mut Call, id: &String)
    ensures
        final(call)@ == old(call)@.without_timer(id@),
{
    let ghost p = timer_not_named(id@);
    let ghost all = call.timers@;
    let mut out: Vec<TimerEntry> = Vec::new();
    assert(views(all).take(0).len() == 0);
    assert(views(out@) =~= Seq::<TimerEntryView>::empty());
    for i in 0..call.timers.len()
        invariant
            p == timer_not_named(id@),
            all == call.timers@,
            views(out@) == keep(views(all).take(i as int), p),
    {
        proof {
            keep_step(views(all), p, i as int);
        }
        if call.timers[i].id != *id {
            let ghost before = views(out@);
            out.push(call.timers[i].clone());
            assert(views(out@) =~= before.push(all[i as int]@));
        }
    }
    assert(views(all).take(all.len() as int) =~= views(all));
    call.timers = out;
}

/// Put a timer on the ledger, in the place of any of its id.
pub fn put_timer(call: &mut Call, entry: TimerEntry)
    ensures
        final(call)@ == old(call)@.with_timer(entry@),
{
    remove_timer(call, &entry.id);
    let ghost before = call.timers@;
    call.timers.push(entry);
    assert(views(call.timers@) =~= views(before).push(entry@));
}

// ── cursors ─────────────────────────────────────────────────────────────
impl CallView {
    /// Where the machine stands, if it is active.
    pub open spec fn cursor(self, machine: Seq<char>) -> Option<Seq<char>> {
        match find_where(self.sm_cursors, cursor_named(machine)) {
            Some(c) => Some(c.state),
            None => None,
        }
    }

    /// The machine put at `to`, in the order of the machines' names.
    pub open spec fn with_cursor(self, machine: Seq<char>, to: Seq<char>) -> CallView {
        CallView {
            sm_cursors: put_cursor(self.sm_cursors, CursorView { machine, state: to }),
            ..self
        }
    }

    /// The machine deactivated.
    pub open spec fn without_cursor(self, machine: Seq<char>) -> CallView {
        CallView { sm_cursors: keep(self.sm_cursors, cursor_not_named(machine)), ..self }
    }

    /// Every machine but that one deactivated.
    pub open spec fn only_cursor(self, machine: Seq<char>) -> CallView {
        CallView { sm_cursors: keep(self.sm_cursors, cursor_named(machine)), ..self }
    }
}

/// Read where a machine stands.
pub fn cursor_of<'a>(call: &'a Call, machine: &String) -> (r: Option<&'a String>)
    ensures
        match r {
            Some(s) => call@.cursor(machine@) == Some(s@),
            None => call@.cursor(machine@) is None,
        },
{
    let ghost p = cursor_named(machine@);
    for i in 0..call.sm_cursors.len()
        invariant
            p == cursor_named(machine@),
            forall|j: int| 0 <= j < i ==> !p(#[trigger] call@.sm_cursors[j]),
    {
        assert(call@.sm_cursors[i as int] == call.sm_cursors@[i as int]@);
        if call.sm_cursors[i].machine == *machine {
            proof {
                first_where_is(call@.sm_cursors, p, i as int);
            }
            return Some(&call.sm_cursors[i].state);
        }
    }
    proof {
        first_where_none(call@.sm_cursors, p);
    }
    None
}

/// Deactivate a machine.
pub fn clear_cursor(call: &mut Call, machine: &String)
    ensures
        final(call)@ == old(call)@.without_cursor(machine@),
{
    let ghost p = cursor_not_named(machine@);
    let ghost all = call.sm_cursors@;
    let mut out: Vec<Cursor> = Vec::new();
    assert(views(all).take(0).len() == 0);
    assert(views(out@) =~= Seq::<CursorView>::empty());
    for i in 0..call.sm_cursors.len()
        invariant
            p == cursor_not_named(machine@),
            all == call.sm_cursors@,
            views(out@) == keep(views(all).take(i as int), p),
    {
        proof {
            keep_step(views(all), p, i as int);
        }
        if call.sm_cursors[i].machine != *machine {
            let ghost before = views(out@);
            out.push(call.sm_cursors[i].clone());
            assert(views(out@) =~= before.push(all[i as int]@));
        }
    }
    assert(views(all).take(all.len() as int) =~= views(all));
    call.sm_cursors = out;
}

/// Put a machine at a state.
pub fn set_cursor(call: &mut Call, machine: &String, to: &String)
    ensures
        final(call)@ == old(call)@.with_cursor(machine@, to@),
{
    let c = Cursor { machine: machine.clone(), state: to.clone() };
    call.sm_cursors = insert_cursor(&call.sm_cursors, c);
}

/// Deactivate every machine but one.
pub fn keep_only_cursor(call: &mut Call, machine: &String)
    ensures
        final(call)@ == old(call)@.only_cursor(machine@),
{
    let ghost p = cursor_named(machine@);
    let ghost all = call.sm_cursors@;
    let mut out: Vec<Cursor> = Vec::new();
    assert(views(all).take(0).len() == 0);
    assert(views(out@) =~= Seq::<CursorView>::empty());
    for i in 0..call.sm_cursors.len()
        invariant
            p == cursor_named(machine@),
            all == call.sm_cursors@,
            views(out@) == keep(views(all).take(i as int), p),
    {
        proof {
            keep_step(views(all), p, i as int);
        }
        if call.sm_cursors[i].machine == *machine {
            let ghost before = views(out@);
            out.push(call.sm_cursors[i].clone());
            assert(views(out@) =~= before.push(all[i as int]@));
        }
    }
    assert(views(all).take(all.len() as int) =~= views(all));
    call.sm_cursors = out;
}

/// A machine stands where it was put, and a deactivated one nowhere; every other
/// machine stands where it stood.
pub proof fn cursors_are_independent(
    c: CallView,
    machine: Seq<char>,
    to: Seq<char>,
    other: Seq<char>,
)
    ensures
        c.with_cursor(machine, to).cursor(machine) == Some(to),
        c.without_cursor(machine).cursor(machine) is None,
        other != machine ==> c.with_cursor(machine, to).cursor(other) == c.cursor(other),
        other != machine ==> c.without_cursor(machine).cursor(other) == c.cursor(other),
{
    let s = c.sm_cursors;
    let gone = cursor_not_named(machine);
    a_cursor_put_is_found(s, CursorView { machine, state: to }, other);
    keep_sound(s, gone);
    first_where_none(keep(s, gone), cursor_named(machine));
    if other != machine {
        find_among_kept(s, gone, cursor_named(other));
    }
}

/// The machines of a call are in the order of their names, each once: moving
/// them and taking them off leaves them so.
pub proof fn cursors_stay_in_order(c: CallView, machine: Seq<char>, to: Seq<char>)
    requires
        in_order(c.sm_cursors),
    ensures
        in_order(c.with_cursor(machine, to).sm_cursors),
        in_order(c.without_cursor(machine).sm_cursors),
        in_order(c.only_cursor(machine).sm_cursors),
{
    put_in_order(c.sm_cursors, CursorView { machine, state: to });
    kept_in_order(c.sm_cursors, cursor_not_named(machine));
    kept_in_order(c.sm_cursors, cursor_named(machine));
}

// ── records ─────────────────────────────────────────────────────────────
impl CallView {
    pub open spec fn add_cdr_event(self, e: CdrEventView) -> CallView {
        CallView { cdr_events: self.cdr_events.push(e), ..self }
    }

    pub open spec fn add_tag_mapping(self, m: TagMappingView) -> CallView {
        CallView { tag_map: self.tag_map.push(m), ..self }
    }

    pub open spec fn add_b_leg(self, l: LegView) -> CallView {
        CallView { b_legs: self.b_legs.push(l), ..self }
    }

    /// The two legs bridged.
    pub open spec fn merge_leg(self, leg_a: Seq<char>, leg_b: Seq<char>) -> CallView {
        CallView { active_peer: Some(PeerPairView { leg_a, leg_b }), ..self }
    }

    /// The bridge the leg takes part in undone.
    pub open spec fn split_leg(self, leg_id: Seq<char>) -> CallView {
        CallView {
            active_peer: match self.active_peer {
                Some(p) => if p.leg_a == leg_id || p.leg_b == leg_id {
                    None
                } else {
                    Some(p)
                },
                None => None,
            },
            ..self
        }
    }

    pub open spec fn deactivate_rule(self, rule_id: Seq<char>) -> CallView {
        if self.deactivated_rules.contains(rule_id) {
            self
        } else {
            CallView { deactivated_rules: self.deactivated_rules.push(rule_id), ..self }
        }
    }

    /// The first termination names when, why and by whom.
    pub open spec fn record_termination(
        self,
        at_ms: i64,
        cause: Option<Seq<char>>,
        by_leg: Option<Seq<char>>,
    ) -> CallView {
        if self.termination is Some {
            self
        } else {
            CallView { termination: Some(TerminationView { at_ms, cause, by_leg }), ..self }
        }
    }
}

/// Append to the call-detail record.
pub fn add_cdr_event(call: &mut Call, e: CdrEvent)
    ensures
        final(call)@ == old(call)@.add_cdr_event(e@),
{
    let ghost before = call.cdr_events@;
    call.cdr_events.push(e);
    assert(views(call.cdr_events@) =~= views(before).push(e@));
}

/// Append to the tag map.
pub fn add_tag_mapping(call: &mut Call, m: TagMapping)
    ensures
        final(call)@ == old(call)@.add_tag_mapping(m@),
{
    let ghost before = call.tag_map@;
    call.tag_map.push(m);
    assert(views(call.tag_map@) =~= views(before).push(m@));
}

/// Append a leg.
pub fn add_b_leg(call: &mut Call, l: Leg)
    ensures
        final(call)@ == old(call)@.add_b_leg(l@),
{
    let ghost before = call.b_legs@;
    call.b_legs.push(l);
    assert(views(call.b_legs@) =~= views(before).push(l@));
}

/// Bridge two legs.
pub fn merge_leg(call: &mut Call, leg_a: &String, leg_b: &String)
    ensures
        final(call)@ == old(call)@.merge_leg(leg_a@, leg_b@),
{
    call.active_peer = Some(PeerPair { leg_a: leg_a.clone(), leg_b: leg_b.clone() });
}

/// Undo the bridge a leg takes part in.
pub fn split_leg(call: &mut Call, leg_id: &String)
    ensures
        final(call)@ == old(call)@.split_leg(leg_id@),
{
    let involved = match &call.active_peer {
        Some(p) => p.leg_a == *leg_id || p.leg_b == *leg_id,
        None => false,
    };
    if involved {
        call.active_peer = None;
    }
}

/// Deactivate a rule for this call.
pub fn deactivate_rule(call: &mut Call, rule_id: &String)
    ensures
        final(call)@ == old(call)@.deactivate_rule(rule_id@),
{
    if !contains_text(&call.deactivated_rules, rule_id) {
        let ghost before = call.deactivated_rules@;
        call.deactivated_rules.push(rule_id.clone());
        assert(views(call.deactivated_rules@) =~= views(before).push(rule_id@));
    }
}

/// Record who ended the call, unless someone already did.
pub fn record_termination(
    call: &mut Call,
    at_ms: i64,
    cause: Option<String>,
    by_leg: Option<String>,
)
    ensures
        final(call)@ == old(call)@.record_termination(at_ms, opt_view(cause), opt_view(by_leg)),
{
    if call.termination.is_none() {
        call.termination = Some(Termination { at_ms, cause, by_leg });
    }
}

// ── resolution ──────────────────────────────────────────────────────────
/// Whether nothing more is awaited of a leg's teardown.
pub open spec fn bye_is_terminal(b: ByeDisposition) -> bool {
    b != ByeDisposition::ByeSent
}

/// Whether a leg holds the call up no longer: its teardown ended, or it never
/// began; and no CANCEL is in flight.
pub open spec fn leg_resolved(l: LegView) -> bool {
    &&& l.disposition != LegDisposition::Cancelling
    &&& match l.bye_disposition {
        Some(b) => bye_is_terminal(b),
        None => l.state == LegState::Trying,
    }
}

pub open spec fn fully_resolved(c: CallView) -> bool {
    leg_resolved(c.a_leg) && forall|i: int|
        0 <= i < c.b_legs.len() ==> leg_resolved(#[trigger] c.b_legs[i])
}

/// Whether a leg makes no more forward progress.
pub open spec fn going_away(state: CallModelState, l: LegView) -> bool {
    state != CallModelState::Active || l.state == LegState::Terminated || l.disposition
        == LegDisposition::Cancelling
}

/// Whether a leg holds the call up no longer.
pub fn leg_is_resolved(l: &Leg) -> (r: bool)
    ensures
        r == leg_resolved(l@),
{
    if l.disposition == LegDisposition::Cancelling {
        return false;
    }
    match l.bye_disposition {
        Some(b) => b != ByeDisposition::ByeSent,
        None => l.state == LegState::Trying,
    }
}

/// Whether every leg is resolved.
pub fn is_fully_resolved(call: &Call) -> (r: bool)
    ensures
        r == fully_resolved(call@),
{
    if !leg_is_resolved(&call.a_leg) {
        return false;
    }
    for i in 0..call.b_legs.len()
        invariant
            forall|j: int| 0 <= j < i ==> leg_resolved(#[trigger] call@.b_legs[j]),
    {
        assert(call@.b_legs[i as int] == call.b_legs@[i as int]@);
        if !leg_is_resolved(&call.b_legs[i]) {
            return false;
        }
    }
    true
}

/// Whether a leg makes no more forward progress.
pub fn leg_is_going_away(state: CallModelState, l: &Leg) -> (r: bool)
    ensures
        r == going_away(state, l@),
{
    state != CallModelState::Active || l.state == LegState::Terminated || l.disposition
        == LegDisposition::Cancelling
}

// ── peering ─────────────────────────────────────────────────────────────
pub open spec fn mapping_of_b(
    leg_id: Seq<char>,
    b_tag: Seq<char>,
) -> spec_fn(TagMappingView) -> bool {
    |m: TagMappingView| m.b_leg_id == leg_id && m.b_tag == b_tag
}

pub open spec fn mapping_of_a(a_tag: Seq<char>) -> spec_fn(TagMappingView) -> bool {
    |m: TagMappingView| m.a_tag == a_tag
}

pub open spec fn mapping_on_leg(leg_id: Seq<char>) -> spec_fn(TagMappingView) -> bool {
    |m: TagMappingView| m.b_leg_id == leg_id
}

pub open spec fn leg_confirmed() -> spec_fn(LegView) -> bool {
    |l: LegView| l.state == LegState::Confirmed
}

/// The value of a tag mapping, if any.
pub open spec fn opt_mapping(m: Option<&TagMapping>) -> Option<TagMappingView> {
    match m {
        Some(m) => Some(m@),
        None => None,
    }
}

impl CallView {
    pub open spec fn by_b_tag(self, leg_id: Seq<char>, b_tag: Seq<char>) -> Option<TagMappingView> {
        find_where(self.tag_map, mapping_of_b(leg_id, b_tag))
    }

    pub open spec fn by_a_tag(self, a_tag: Seq<char>) -> Option<TagMappingView> {
        find_where(self.tag_map, mapping_of_a(a_tag))
    }

    /// The leg bridged to `leg_id`.
    pub open spec fn peer(self, leg_id: Seq<char>) -> Option<Seq<char>> {
        match self.active_peer {
            Some(p) => if p.leg_a == leg_id {
                Some(p.leg_b)
            } else if p.leg_b == leg_id {
                Some(p.leg_a)
            } else {
                None
            },
            None => None,
        }
    }

    /// The leg an event of `source` is relayed to when nothing is bridged: the
    /// caller's for every other leg; for the caller's the confirmed one, else
    /// the first.
    pub open spec fn default_peer(self, source: Seq<char>) -> Option<Seq<char>> {
        if source == self.a_leg.leg_id {
            match find_where(self.b_legs, leg_confirmed()) {
                Some(l) => Some(l.leg_id),
                None => if self.b_legs.len() > 0 {
                    Some(self.b_legs[0].leg_id)
                } else {
                    None
                },
            }
        } else {
            Some(self.a_leg.leg_id)
        }
    }

    /// The leg to relay to, and the callee tag of the dialog on it where the
    /// tag map names one: the bridged leg; else, for a request of the caller
    /// under a tag it was shown, the dialog that tag stands for; else nothing
    /// for a leg that is not adopted, and the default peer for every other.
    pub open spec fn relay_peer(self, source: Seq<char>, to_tag: Option<Seq<char>>) -> (
        Option<Seq<char>>,
        Option<Seq<char>>,
    ) {
        match self.peer(source) {
            Some(p) => (Some(p), None),
            None => {
                let mapped = if source == self.a_leg.leg_id {
                    match to_tag {
                        Some(t) => self.by_a_tag(t),
                        None => None,
                    }
                } else {
                    None
                };
                match mapped {
                    Some(m) => (Some(m.b_leg_id), Some(m.b_tag)),
                    None => if source != self.a_leg.leg_id && (self.leg(source) matches Some(l)
                        && !l.adopted) {
                        (None, None)
                    } else {
                        (self.default_peer(source), None)
                    },
                }
            },
        }
    }
}

/// The mapping of a callee's dialog.
pub fn find_by_b_tag<'a>(
    call: &'a Call,
    leg_id: &String,
    b_tag: &String,
) -> (r: Option<&'a TagMapping>)
    ensures
        opt_mapping(r) == call@.by_b_tag(leg_id@, b_tag@),
{
    let ghost p = mapping_of_b(leg_id@, b_tag@);
    for i in 0..call.tag_map.len()
        invariant
            p == mapping_of_b(leg_id@, b_tag@),
            forall|j: int| 0 <= j < i ==> !p(#[trigger] call@.tag_map[j]),
    {
        assert(call@.tag_map[i as int] == call.tag_map@[i as int]@);
        if call.tag_map[i].b_leg_id == *leg_id && call.tag_map[i].b_tag == *b_tag {
            proof {
                first_where_is(call@.tag_map, p, i as int);
            }
            return Some(&call.tag_map[i]);
        }
    }
    proof {
        first_where_none(call@.tag_map, p);
    }
    None
}

/// The mapping of a tag the caller was shown.
pub fn find_by_a_tag<'a>(call: &'a Call, a_tag: &String) -> (r: Option<&'a TagMapping>)
    ensures
        opt_mapping(r) == call@.by_a_tag(a_tag@),
{
    let ghost p = mapping_of_a(a_tag@);
    for i in 0..call.tag_map.len()
        invariant
            p == mapping_of_a(a_tag@),
            forall|j: int| 0 <= j < i ==> !p(#[trigger] call@.tag_map[j]),
    {
        assert(call@.tag_map[i as int] == call.tag_map@[i as int]@);
        if call.tag_map[i].a_tag == *a_tag {
            proof {
                first_where_is(call@.tag_map, p, i as int);
            }
            return Some(&call.tag_map[i]);
        }
    }
    proof {
        first_where_none(call@.tag_map, p);
    }
    None
}

/// The first mapping of any dialog on a leg.
pub fn find_mapping_on_leg<'a>(call: &'a Call, leg_id: &String) -> (r: Option<&'a TagMapping>)
    ensures
        opt_mapping(r) == find_where(call@.tag_map, mapping_on_leg(leg_id@)),
        (r is Some) == any_where(call@.tag_map, mapping_on_leg(leg_id@)),
{
    let ghost p = mapping_on_leg(leg_id@);
    for i in 0..call.tag_map.len()
        invariant
            p == mapping_on_leg(leg_id@),
            forall|j: int| 0 <= j < i ==> !p(#[trigger] call@.tag_map[j]),
    {
        assert(call@.tag_map[i as int] == call.tag_map@[i as int]@);
        if call.tag_map[i].b_leg_id == *leg_id {
            proof {
                first_where_is(call@.tag_map, p, i as int);
            }
            return Some(&call.tag_map[i]);
        }
    }
    proof {
        first_where_none(call@.tag_map, p);
    }
    None
}

/// The leg bridged to `leg_id`.
pub fn get_peer(call: &Call, leg_id: &String) -> (r: Option<String>)
    ensures
        opt_view(r) == call@.peer(leg_id@),
{
    match &call.active_peer {
        Some(p) => if p.leg_a == *leg_id {
            Some(p.leg_b.clone())
        } else if p.leg_b == *leg_id {
            Some(p.leg_a.clone())
        } else {
            None
        },
        None => None,
    }
}

fn find_confirmed_leg(legs: &Vec<Leg>) -> (r: Option<usize>)
    ensures
        match r {
            Some(i) => i < legs@.len() && first_where(views(legs@), leg_confirmed()) == Some(
                i as int,
            ),
            None => first_where(views(legs@), leg_confirmed()) is None,
        },
{
    let ghost p = leg_confirmed();
    for i in 0..legs.len()
        invariant
            p == leg_confirmed(),
            forall|j: int| 0 <= j < i ==> !p(#[trigger] views(legs@)[j]),
    {
        if legs[i].state == LegState::Confirmed {
            proof {
                first_where_is(views(legs@), p, i as int);
            }
            return Some(i);
        }
    }
    proof {
        first_where_none(views(legs@), p);
    }
    None
}

/// Whether some leg this stack originated is confirmed.
pub fn any_b_leg_confirmed(call: &Call) -> (r: bool)
    ensures
        r == any_where(call@.b_legs, leg_confirmed()),
{
    let ghost p = leg_confirmed();
    for i in 0..call.b_legs.len()
        invariant
            p == leg_confirmed(),
            forall|j: int| 0 <= j < i ==> !p(#[trigger] call@.b_legs[j]),
    {
        assert(call@.b_legs[i as int] == call.b_legs@[i as int]@);
        if call.b_legs[i].state == LegState::Confirmed {
            assert(p(call@.b_legs[i as int]));
            return true;
        }
    }
    false
}

/// Resolve the leg, and the dialog on it, that an event is relayed to.
pub fn resolve_relay_peer(call: &Call, source: &String, to_tag: &Option<String>) -> (r: (
    Option<String>,
    Option<String>,
))
    ensures
        (opt_view(r.0), opt_view(r.1)) == call@.relay_peer(source@, opt_view(*to_tag)),
{
    if let Some(p) = get_peer(call, source) {
        return (Some(p), None);
    }
    if *source == call.a_leg.leg_id {
        if let Some(t) = to_tag {
            if let Some(m) = find_by_a_tag(call, t) {
                return (Some(m.b_leg_id.clone()), Some(m.b_tag.clone()));
            }
        }
        match find_confirmed_leg(&call.b_legs) {
            Some(i) => (Some(call.b_legs[i].leg_id.clone()), None),
            None => if call.b_legs.len() > 0 {
                (Some(call.b_legs[0].leg_id.clone()), None)
            } else {
                (None, None)
            },
        }
    } else {
        if let Some(l) = find_leg(call, source) {
            if !l.adopted {
                return (None, None);
            }
        }
        (Some(call.a_leg.leg_id.clone()), None)
    }
}

// ── small reads ─────────────────────────────────────────────────────────
/// The masking of provisionals that the routing decision switched on.
pub open spec fn masking(c: CallView) -> Option<RelayFirst18xStrategy> {
    match c.features {
        Some(f) => f.relay_first_18x_to_180,
        None => None,
    }
}

/// Read the masking of provisionals.
pub fn relay_first_18x_strategy(call: &Call) -> (r: Option<RelayFirst18xStrategy>)
    ensures
        r == masking(call@),
{
    match &call.features {
        Some(f) => f.relay_first_18x_to_180,
        None => None,
    }
}

/// The tag this stack answers a leg's peer under, once it has one.
pub open spec fn own_tag(c: CallView, leg_id: Seq<char>) -> Option<Seq<char>> {
    match c.leg(leg_id) {
        Some(l) => if l.dialogs.len() > 0 && l.dialogs[0].sip.local_tag.len() > 0 {
            Some(l.dialogs[0].sip.local_tag)
        } else {
            None
        },
        None => None,
    }
}

/// Read the tag this stack answers a leg's peer under.
pub fn b2bua_tag(call: &Call, leg_id: &String) -> (r: Option<String>)
    ensures
        opt_view(r) == own_tag(call@, leg_id@),
{
    match find_leg(call, leg_id) {
        Some(l) => if l.dialogs.len() > 0 && !is_empty(&l.dialogs[0].sip.local_tag) {
            Some(l.dialogs[0].sip.local_tag.clone())
        } else {
            None
        },
        None => None,
    }
}

pub open spec fn invite_pending() -> spec_fn(PendingRequestView) -> bool {
    |p: PendingRequestView| p.method == MethodView::Invite
}

/// Whether an INVITE transaction is still open on a dialog: a relayed one
/// awaits its final, or a 2xx of this stack its ACK.
pub open spec fn invite_open(d: DialogView) -> bool {
    ||| any_where(d.ext.inbound_pending_requests, invite_pending())
    ||| d.ext.pending_reinvite_2xx is Some
    ||| d.ext.answered_2xx is Some
}

/// Whether an INVITE transaction is still open on a dialog.
pub fn invite_transaction_open(d: &Dialog) -> (r: bool)
    ensures
        r == invite_open(d@),
{
    if d.ext.pending_reinvite_2xx.is_some() || d.ext.answered_2xx.is_some() {
        return true;
    }
    let ghost p = invite_pending();
    for i in 0..d.ext.inbound_pending_requests.len()
        invariant
            p == invite_pending(),
            forall|j: int|
                0 <= j < i ==> !p(#[trigger] views(d.ext.inbound_pending_requests@)[j]),
    {
        if d.ext.inbound_pending_requests[i].method == Method::Invite {
            assert(p(views(d.ext.inbound_pending_requests@)[i as int]));
            return true;
        }
    }
    false
}

} // verus!
