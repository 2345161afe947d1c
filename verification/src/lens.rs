//! Reading and changing one part of a call: a leg by its id, a dialog by its
//! identity tag, a timer by its id, a machine's cursor by its name.
use vstd::prelude::*;

use crate::call::{
    ByeDisposition, Call, CallView, CursorView, Dialog, DialogExtView, DialogView, InviteTxn,
    InviteTxnView, Leg, LegDisposition, LegState, LegView, PendingRequest, PendingRequestView,
    StackDialogView, TimerEntryView,
};
use crate::seqs::{
    find_where, find_where_push, first_where, first_where_found, first_where_is, first_where_none,
    is_first, keep, keep_sound, keep_step, views,
};
use crate::text::same;

verus! {

/// Clamp a sum into the range of `i64`.
pub open spec fn clamp(n: int) -> i64 {
    if n < i64::MIN {
        i64::MIN
    } else if n > i64::MAX {
        i64::MAX
    } else {
        n as i64
    }
}

/// `a + b`, held within the range of `i64`.
pub fn clamped_add(a: i64, b: i64) -> (r: i64)
    ensures
        r == clamp(a + b),
{
    let s: i128 = a as i128 + b as i128;
    if s < i64::MIN as i128 {
        i64::MIN
    } else if s > i64::MAX as i128 {
        i64::MAX
    } else {
        s as i64
    }
}

/// `secs` seconds in milliseconds, held within the range of `i64`.
pub fn clamped_millis(secs: i64) -> (r: i64)
    ensures
        r == clamp(secs * 1000),
{
    let s: i128 = secs as i128 * 1000;
    if s < i64::MIN as i128 {
        i64::MIN
    } else if s > i64::MAX as i128 {
        i64::MAX
    } else {
        s as i64
    }
}

// ── predicates on parts ─────────────────────────────────────────────────
pub open spec fn leg_named(id: Seq<char>) -> spec_fn(LegView) -> bool {
    |l: LegView| l.leg_id == id
}

/// The tag that identifies a dialog within its leg: this stack's own on the
/// caller's leg, the peer's on every other.
pub open spec fn identity_tag(leg_id: Seq<char>, d: DialogView) -> Seq<char> {
    if leg_id == "a"@ {
        d.sip.local_tag
    } else {
        d.sip.remote_tag
    }
}

pub open spec fn dialog_named(leg_id: Seq<char>, tag: Seq<char>) -> spec_fn(DialogView) -> bool {
    |d: DialogView| identity_tag(leg_id, d) == tag
}

pub open spec fn dialog_toward(tag: Seq<char>) -> spec_fn(DialogView) -> bool {
    |d: DialogView| d.sip.remote_tag == tag
}

/// The peer's tag is known.
pub open spec fn dialog_tagged() -> spec_fn(DialogView) -> bool {
    |d: DialogView| d.sip.remote_tag.len() > 0
}

pub open spec fn dialog_untagged() -> spec_fn(DialogView) -> bool {
    |d: DialogView| d.sip.remote_tag.len() == 0
}

pub open spec fn pending_under(cseq: i64) -> spec_fn(PendingRequestView) -> bool {
    |p: PendingRequestView| p.outbound_cseq == cseq
}

pub open spec fn not_pending_under(cseq: i64) -> spec_fn(PendingRequestView) -> bool {
    |p: PendingRequestView| p.outbound_cseq != cseq
}

pub open spec fn timer_not_named(id: Seq<char>) -> spec_fn(TimerEntryView) -> bool {
    |t: TimerEntryView| t.id != id
}

pub open spec fn cursor_named(machine: Seq<char>) -> spec_fn(CursorView) -> bool {
    |c: CursorView| c.machine == machine
}

pub open spec fn cursor_not_named(machine: Seq<char>) -> spec_fn(CursorView) -> bool {
    |c: CursorView| c.machine != machine
}

// ── legs ────────────────────────────────────────────────────────────────
impl CallView {
    pub open spec fn b_at(self, id: Seq<char>) -> Option<int> {
        first_where(self.b_legs, leg_named(id))
    }

    /// The leg of that id: the caller's, else the first other one.
    pub open spec fn leg(self, id: Seq<char>) -> Option<LegView> {
        if self.a_leg.leg_id == id {
            Some(self.a_leg)
        } else {
            find_where(self.b_legs, leg_named(id))
        }
    }

    /// The call with that leg replaced.
    pub open spec fn with_leg(self, id: Seq<char>, l: LegView) -> CallView {
        if self.a_leg.leg_id == id {
            CallView { a_leg: l, ..self }
        } else {
            match self.b_at(id) {
                Some(i) => CallView { b_legs: self.b_legs.update(i, l), ..self },
                None => self,
            }
        }
    }

    /// Every leg, the caller's first.
    pub open spec fn legs(self) -> Seq<LegView> {
        seq![self.a_leg] + self.b_legs
    }

    /// The dialog of that identity on that leg.
    pub open spec fn dialog(self, leg_id: Seq<char>, tag: Seq<char>) -> Option<DialogView> {
        match self.leg(leg_id) {
            Some(l) => find_where(l.dialogs, dialog_named(leg_id, tag)),
            None => None,
        }
    }

    /// The call with that dialog replaced.
    pub open spec fn with_dialog(
        self,
        leg_id: Seq<char>,
        tag: Seq<char>,
        d: DialogView,
    ) -> CallView {
        match self.leg(leg_id) {
            Some(l) => match first_where(l.dialogs, dialog_named(leg_id, tag)) {
                Some(i) => self.with_leg(leg_id, LegView { dialogs: l.dialogs.update(i, d), ..l }),
                None => self,
            },
            None => self,
        }
    }

    pub open spec fn set_leg_state(self, id: Seq<char>, state: LegState) -> CallView {
        match self.leg(id) {
            Some(l) => self.with_leg(id, LegView { state, ..l }),
            None => self,
        }
    }

    pub open spec fn set_leg_disposition(
        self,
        id: Seq<char>,
        disposition: LegDisposition,
    ) -> CallView {
        match self.leg(id) {
            Some(l) => self.with_leg(id, LegView { disposition, ..l }),
            None => self,
        }
    }

    pub open spec fn set_bye_disposition(self, id: Seq<char>, bye: ByeDisposition) -> CallView {
        match self.leg(id) {
            Some(l) => self.with_leg(id, LegView { bye_disposition: Some(bye), ..l }),
            None => self,
        }
    }
}

/// Putting a leg back where it stands changes nothing.
pub proof fn with_leg_same(c: CallView, id: Seq<char>)
    ensures
        c.leg(id) matches Some(l) ==> c.with_leg(id, l) == c,
{
    if c.a_leg.leg_id != id {
        first_where_found(c.b_legs, leg_named(id));
        match c.b_at(id) {
            Some(i) => {
                assert(c.b_legs.update(i, c.b_legs[i]) =~= c.b_legs);
            },
            None => {},
        }
    }
}

/// The leg of that id is the one just put there.
pub proof fn leg_of_with_leg(c: CallView, id: Seq<char>, l: LegView)
    requires
        c.leg(id) is Some,
        l.leg_id == id,
    ensures
        c.with_leg(id, l).leg(id) == Some(l),
{
    if c.a_leg.leg_id != id {
        first_where_found(c.b_legs, leg_named(id));
        let i = c.b_at(id)->0;
        let bs = c.b_legs.update(i, l);
        assert(is_first_in_updated(c, id, l, i, bs));
        first_where_is(bs, leg_named(id), i);
    }
}

spec fn is_first_in_updated(
    c: CallView,
    id: Seq<char>,
    l: LegView,
    i: int,
    bs: Seq<LegView>,
) -> bool {
    is_first(bs, leg_named(id), i)
}

/// Changing one leg leaves every leg of another id as it was.
pub proof fn other_leg_of_with_leg(c: CallView, id: Seq<char>, l: LegView, other: Seq<char>)
    requires
        l.leg_id == id,
        other != id,
    ensures
        c.with_leg(id, l).leg(other) == c.leg(other),
{
    if c.a_leg.leg_id != id {
        first_where_found(c.b_legs, leg_named(id));
        match c.b_at(id) {
            Some(i) => {
                let bs = c.b_legs.update(i, l);
                first_where_found(c.b_legs, leg_named(other));
                match first_where(c.b_legs, leg_named(other)) {
                    Some(j) => {
                        assert(is_first(bs, leg_named(other), j)) by {
                            assert forall|k: int| 0 <= k < j implies !leg_named(other)(#[trigger] bs[k]) by {
                                assert(!leg_named(other)(c.b_legs[k]));
                            }
                        }
                        first_where_is(bs, leg_named(other), j);
                    },
                    None => {
                        assert forall|k: int| 0 <= k < bs.len() implies !leg_named(other)(#[trigger] bs[k]) by {
                            assert(!leg_named(other)(c.b_legs[k]));
                        }
                        first_where_none(bs, leg_named(other));
                    },
                }
            },
            None => {},
        }
    } else {
        first_where_found(c.b_legs, leg_named(other));
    }
}

/// The index of the leg `id` among `legs`.
pub fn find_leg_index(legs: &Vec<Leg>, id: &String) -> (r: Option<usize>)
    ensures
        match r {
            Some(i) => i < legs@.len() && first_where(views(legs@), leg_named(id@)) == Some(
                i as int,
            ),
            None => first_where(views(legs@), leg_named(id@)) is None,
        },
{
    let ghost p = leg_named(id@);
    for i in 0..legs.len()
        invariant
            p == leg_named(id@),
            forall|j: int| 0 <= j < i ==> !p(#[trigger] views(legs@)[j]),
    {
        if legs[i].leg_id == *id {
            proof {
                first_where_is(views(legs@), p, i as int);
            }
            return Some(i);
        }
    }
    proof {
        first_where_none(views(legs@), p);
    }
    None
}

/// The leg `id`.
pub fn find_leg<'a>(call: &'a Call, id: &String) -> (r: Option<&'a Leg>)
    ensures
        opt_leg(r) == call@.leg(id@),
{
    if call.a_leg.leg_id == *id {
        Some(&call.a_leg)
    } else {
        match find_leg_index(&call.b_legs, id) {
            Some(i) => Some(&call.b_legs[i]),
            None => None,
        }
    }
}

/// The value of a leg, if any.
pub open spec fn opt_leg(l: Option<&Leg>) -> Option<LegView> {
    match l {
        Some(l) => Some(l@),
        None => None,
    }
}

/// The value of a dialog, if any.
pub open spec fn opt_dialog(d: Option<&Dialog>) -> Option<DialogView> {
    match d {
        Some(d) => Some(d@),
        None => None,
    }
}

/// The leg `id`, to be changed.
pub fn leg_mut<'a>(call: &'a mut Call, id: &String) -> (r: Option<&'a mut Leg>)
    ensures
        match r {
            Some(l) => old(call)@.leg(id@) == Some((*l)@) && final(call)@ == old(call)@.with_leg(
                id@,
                (*final(l))@,
            ),
            None => old(call)@.leg(id@) is None && final(call)@ == old(call)@,
        },
{
    if call.a_leg.leg_id == *id {
        Some(&mut call.a_leg)
    } else {
        match find_leg_index(&call.b_legs, id) {
            Some(i) => {
                let ghost before = call.b_legs@;
                let l = &mut call.b_legs[i];
                assert(views(before.update(i as int, *final(l))) =~= views(before).update(
                    i as int,
                    (*final(l))@,
                ));
                Some(l)
            },
            None => None,
        }
    }
}

/// Set the state of the leg `id`.
pub fn set_leg_state(call: &mut Call, id: &String, state: LegState)
    ensures
        final(call)@ == old(call)@.set_leg_state(id@, state),
{
    if let Some(l) = leg_mut(call, id) {
        l.state = state;
    }
}

/// Set the disposition of the leg `id`.
pub fn set_leg_disposition(call: &mut Call, id: &String, disposition: LegDisposition)
    ensures
        final(call)@ == old(call)@.set_leg_disposition(id@, disposition),
{
    if let Some(l) = leg_mut(call, id) {
        l.disposition = disposition;
    }
}

/// Set how the teardown of the leg `id` ended.
pub fn set_bye_disposition(call: &mut Call, id: &String, bye: ByeDisposition)
    ensures
        final(call)@ == old(call)@.set_bye_disposition(id@, bye),
{
    if let Some(l) = leg_mut(call, id) {
        l.bye_disposition = Some(bye);
    }
}

// ── dialogs ─────────────────────────────────────────────────────────────
/// Whether a leg id is the caller's.
pub fn is_a(leg_id: &String) -> (r: bool)
    ensures
        r == (leg_id@ == "a"@),
{
    same(leg_id.as_str(), "a")
}

/// The tag that identifies `d` on the leg `leg_id`.
pub fn dialog_identity_tag(leg_id: &String, d: &Dialog) -> (r: String)
    ensures
        r@ == identity_tag(leg_id@, d@),
{
    if is_a(leg_id) {
        d.sip.local_tag.clone()
    } else {
        d.sip.remote_tag.clone()
    }
}

/// The index of the dialog that `tag` identifies.
pub fn find_dialog_index(dialogs: &Vec<Dialog>, leg_id: &String, tag: &String) -> (r: Option<usize>)
    ensures
        match r {
            Some(i) => i < dialogs@.len() && first_where(
                views(dialogs@),
                dialog_named(leg_id@, tag@),
            ) == Some(i as int),
            None => first_where(views(dialogs@), dialog_named(leg_id@, tag@)) is None,
        },
{
    let ghost p = dialog_named(leg_id@, tag@);
    for i in 0..dialogs.len()
        invariant
            p == dialog_named(leg_id@, tag@),
            forall|j: int| 0 <= j < i ==> !p(#[trigger] views(dialogs@)[j]),
    {
        let id = dialog_identity_tag(leg_id, &dialogs[i]);
        if id == *tag {
            proof {
                first_where_is(views(dialogs@), p, i as int);
            }
            return Some(i);
        }
    }
    proof {
        first_where_none(views(dialogs@), p);
    }
    None
}

/// The index of the dialog whose peer tag is `tag`.
pub fn find_dialog_toward(dialogs: &Vec<Dialog>, tag: &String) -> (r: Option<usize>)
    ensures
        match r {
            Some(i) => i < dialogs@.len() && first_where(views(dialogs@), dialog_toward(tag@))
                == Some(i as int),
            None => first_where(views(dialogs@), dialog_toward(tag@)) is None,
        },
{
    let ghost p = dialog_toward(tag@);
    for i in 0..dialogs.len()
        invariant
            p == dialog_toward(tag@),
            forall|j: int| 0 <= j < i ==> !p(#[trigger] views(dialogs@)[j]),
    {
        if dialogs[i].sip.remote_tag == *tag {
            proof {
                first_where_is(views(dialogs@), p, i as int);
            }
            return Some(i);
        }
    }
    proof {
        first_where_none(views(dialogs@), p);
    }
    None
}

/// Whether a text is empty.
pub fn is_empty(s: &String) -> (r: bool)
    ensures
        r == (s@.len() == 0),
{
    s.as_str().unicode_len() == 0
}

/// The index of the first dialog whose peer tag is known.
pub fn find_tagged_dialog(dialogs: &Vec<Dialog>) -> (r: Option<usize>)
    ensures
        match r {
            Some(i) => i < dialogs@.len() && first_where(views(dialogs@), dialog_tagged()) == Some(
                i as int,
            ),
            None => first_where(views(dialogs@), dialog_tagged()) is None,
        },
{
    let ghost p = dialog_tagged();
    for i in 0..dialogs.len()
        invariant
            p == dialog_tagged(),
            forall|j: int| 0 <= j < i ==> !p(#[trigger] views(dialogs@)[j]),
    {
        if !is_empty(&dialogs[i].sip.remote_tag) {
            proof {
                first_where_is(views(dialogs@), p, i as int);
            }
            return Some(i);
        }
    }
    proof {
        first_where_none(views(dialogs@), p);
    }
    None
}

/// The index of the first dialog whose peer tag is not known yet.
pub fn find_untagged_dialog(dialogs: &Vec<Dialog>) -> (r: Option<usize>)
    ensures
        match r {
            Some(i) => i < dialogs@.len() && first_where(views(dialogs@), dialog_untagged())
                == Some(i as int),
            None => first_where(views(dialogs@), dialog_untagged()) is None,
        },
{
    let ghost p = dialog_untagged();
    for i in 0..dialogs.len()
        invariant
            p == dialog_untagged(),
            forall|j: int| 0 <= j < i ==> !p(#[trigger] views(dialogs@)[j]),
    {
        if is_empty(&dialogs[i].sip.remote_tag) {
            proof {
                first_where_is(views(dialogs@), p, i as int);
            }
            return Some(i);
        }
    }
    proof {
        first_where_none(views(dialogs@), p);
    }
    None
}

/// The dialog that `tag` identifies on the leg `leg_id`, to be changed.
pub fn dialog_mut<'a>(
    call: &'a mut Call,
    leg_id: &String,
    tag: &String,
) -> (r: Option<&'a mut Dialog>)
    ensures
        match r {
            Some(d) => old(call)@.dialog(leg_id@, tag@) == Some((*d)@) && final(call)@ == old(
                call,
            )@.with_dialog(leg_id@, tag@, (*final(d))@),
            None => old(call)@.dialog(leg_id@, tag@) is None && final(call)@ == old(call)@,
        },
{
    proof {
        with_leg_same(call@, leg_id@);
    }
    match leg_mut(call, leg_id) {
        Some(l) => match find_dialog_index(&l.dialogs, leg_id, tag) {
            Some(i) => {
                let ghost before = l.dialogs@;
                let d = &mut l.dialogs[i];
                assert(views(before.update(i as int, *final(d))) =~= views(before).update(
                    i as int,
                    (*final(d))@,
                ));
                Some(d)
            },
            None => None,
        },
        None => None,
    }
}

impl DialogView {
    pub open spec fn bump(self, delta: i64) -> DialogView {
        DialogView {
            sip: StackDialogView { local_cseq: clamp(self.sip.local_cseq + delta), ..self.sip },
            ..self
        }
    }

    pub open spec fn heard(self, cseq: i64) -> DialogView {
        DialogView { ext: DialogExtView { remote_cseq: Some(cseq), ..self.ext }, ..self }
    }

    pub open spec fn with_pending(self, p: PendingRequestView) -> DialogView {
        DialogView {
            ext: DialogExtView {
                inbound_pending_requests: self.ext.inbound_pending_requests.push(p),
                ..self.ext
            },
            ..self
        }
    }

    pub open spec fn without_pending(self, cseq: i64) -> DialogView {
        DialogView {
            ext: DialogExtView {
                inbound_pending_requests: keep(
                    self.ext.inbound_pending_requests,
                    not_pending_under(cseq),
                ),
                ..self.ext
            },
            ..self
        }
    }

    pub open spec fn pending(self, cseq: i64) -> Option<PendingRequestView> {
        find_where(self.ext.inbound_pending_requests, pending_under(cseq))
    }

    pub open spec fn cancel_pending(self, cseq: i64) -> DialogView {
        match first_where(self.ext.inbound_pending_requests, pending_under(cseq)) {
            Some(i) => DialogView {
                ext: DialogExtView {
                    inbound_pending_requests: self.ext.inbound_pending_requests.update(
                        i,
                        PendingRequestView {
                            cancelled: true,
                            ..self.ext.inbound_pending_requests[i]
                        },
                    ),
                    ..self.ext
                },
                ..self
            },
            None => self,
        }
    }

    /// A new INVITE transaction: its ACK goes out on a branch of its own.
    pub open spec fn with_invite_txn(self, txn: InviteTxnView) -> DialogView {
        DialogView {
            ext: DialogExtView { pending_invite_txn: Some(txn), ack_branch: None, ..self.ext },
            ..self
        }
    }

    /// A new INVITE transaction of this stack's own: of an earlier one nothing
    /// is owed or repeated any more.
    pub open spec fn with_own_invite_txn(self, txn: InviteTxnView) -> DialogView {
        DialogView {
            ext: DialogExtView {
                emitted_ack: None,
                awaited_ack_cseq: None,
                ..self.with_invite_txn(txn).ext
            },
            ..self
        }
    }

    pub open spec fn with_cached_sdp(self, body: Seq<u8>) -> DialogView {
        DialogView { ext: DialogExtView { cached_sdp: Some(body), ..self.ext }, ..self }
    }
}

impl CallView {
    pub open spec fn bump_local_cseq(
        self,
        leg_id: Seq<char>,
        tag: Seq<char>,
        delta: i64,
    ) -> CallView {
        match self.dialog(leg_id, tag) {
            Some(d) => self.with_dialog(leg_id, tag, d.bump(delta)),
            None => self,
        }
    }

    pub open spec fn update_remote_cseq(
        self,
        leg_id: Seq<char>,
        tag: Seq<char>,
        cseq: i64,
    ) -> CallView {
        match self.dialog(leg_id, tag) {
            Some(d) => self.with_dialog(leg_id, tag, d.heard(cseq)),
            None => self,
        }
    }

    pub open spec fn add_pending_request(
        self,
        leg_id: Seq<char>,
        tag: Seq<char>,
        p: PendingRequestView,
    ) -> CallView {
        match self.dialog(leg_id, tag) {
            Some(d) => self.with_dialog(leg_id, tag, d.with_pending(p)),
            None => self,
        }
    }

    pub open spec fn remove_pending_request(
        self,
        leg_id: Seq<char>,
        tag: Seq<char>,
        cseq: i64,
    ) -> CallView {
        match self.dialog(leg_id, tag) {
            Some(d) => self.with_dialog(leg_id, tag, d.without_pending(cseq)),
            None => self,
        }
    }

    pub open spec fn cancel_pending_request(
        self,
        leg_id: Seq<char>,
        tag: Seq<char>,
        cseq: i64,
    ) -> CallView {
        match self.dialog(leg_id, tag) {
            Some(d) => self.with_dialog(leg_id, tag, d.cancel_pending(cseq)),
            None => self,
        }
    }

    pub open spec fn set_invite_txn(
        self,
        leg_id: Seq<char>,
        tag: Seq<char>,
        txn: InviteTxnView,
    ) -> CallView {
        match self.dialog(leg_id, tag) {
            Some(d) => self.with_dialog(leg_id, tag, d.with_invite_txn(txn)),
            None => self,
        }
    }

    pub open spec fn set_own_invite_txn(
        self,
        leg_id: Seq<char>,
        tag: Seq<char>,
        txn: InviteTxnView,
    ) -> CallView {
        match self.dialog(leg_id, tag) {
            Some(d) => self.with_dialog(leg_id, tag, d.with_own_invite_txn(txn)),
            None => self,
        }
    }
}

/// Advance the local sequence of a dialog.
pub fn bump_local_cseq(call: &mut Call, leg_id: &String, tag: &String, delta: i64)
    ensures
        final(call)@ == old(call)@.bump_local_cseq(leg_id@, tag@, delta),
{
    if let Some(d) = dialog_mut(call, leg_id, tag) {
        d.sip.local_cseq = clamped_add(d.sip.local_cseq, delta);
    }
}

/// Record the highest sequence number heard on a dialog.
pub fn update_remote_cseq(call: &mut Call, leg_id: &String, tag: &String, cseq: i64)
    ensures
        final(call)@ == old(call)@.update_remote_cseq(leg_id@, tag@, cseq),
{
    if let Some(d) = dialog_mut(call, leg_id, tag) {
        d.ext.remote_cseq = Some(cseq);
    }
}

/// Remember a relayed request until its final.
pub fn add_pending_request(call: &mut Call, leg_id: &String, tag: &String, p: PendingRequest)
    ensures
        final(call)@ == old(call)@.add_pending_request(leg_id@, tag@, p@),
{
    if let Some(d) = dialog_mut(call, leg_id, tag) {
        let ghost before = d.ext.inbound_pending_requests@;
        d.ext.inbound_pending_requests.push(p);
        assert(views(d.ext.inbound_pending_requests@) =~= views(before).push(p@));
    }
}

/// Forget the relayed request sent under `cseq`.
pub fn remove_pending_request(call: &mut Call, leg_id: &String, tag: &String, cseq: i64)
    ensures
        final(call)@ == old(call)@.remove_pending_request(leg_id@, tag@, cseq),
{
    if let Some(d) = dialog_mut(call, leg_id, tag) {
        let left = pending_except(&d.ext.inbound_pending_requests, cseq);
        d.ext.inbound_pending_requests = left;
    }
}

fn pending_except(list: &Vec<PendingRequest>, cseq: i64) -> (r: Vec<PendingRequest>)
    ensures
        views(r@) == keep(views(list@), not_pending_under(cseq)),
{
    let ghost p = not_pending_under(cseq);
    let mut out: Vec<PendingRequest> = Vec::new();
    assert(views(list@).take(0).len() == 0);
    assert(views(out@) =~= Seq::<PendingRequestView>::empty());
    for i in 0..list.len()
        invariant
            p == not_pending_under(cseq),
            views(out@) == keep(views(list@).take(i as int), p),
    {
        proof {
            keep_step(views(list@), p, i as int);
        }
        if list[i].outbound_cseq != cseq {
            let ghost before = views(out@);
            out.push(list[i].clone());
            assert(views(out@) =~= before.push(list@[i as int]@));
        }
    }
    assert(views(list@).take(list@.len() as int) =~= views(list@));
    out
}

/// The index of the request relayed under `cseq`.
pub fn find_pending_index(list: &Vec<PendingRequest>, cseq: i64) -> (r: Option<usize>)
    ensures
        match r {
            Some(i) => i < list@.len() && first_where(views(list@), pending_under(cseq)) == Some(
                i as int,
            ),
            None => first_where(views(list@), pending_under(cseq)) is None,
        },
{
    let ghost p = pending_under(cseq);
    for i in 0..list.len()
        invariant
            p == pending_under(cseq),
            forall|j: int| 0 <= j < i ==> !p(#[trigger] views(list@)[j]),
    {
        if list[i].outbound_cseq == cseq {
            proof {
                first_where_is(views(list@), p, i as int);
            }
            return Some(i);
        }
    }
    proof {
        first_where_none(views(list@), p);
    }
    None
}

/// The request relayed on `d` under `cseq`.
pub fn find_pending_request<'a>(d: &'a Dialog, cseq: i64) -> (r: Option<&'a PendingRequest>)
    ensures
        opt_pending(r) == d@.pending(cseq),
{
    match find_pending_index(&d.ext.inbound_pending_requests, cseq) {
        Some(i) => Some(&d.ext.inbound_pending_requests[i]),
        None => None,
    }
}

/// The value of a pending request, if any.
pub open spec fn opt_pending(p: Option<&PendingRequest>) -> Option<PendingRequestView> {
    match p {
        Some(p) => Some(p@),
        None => None,
    }
}

/// Mark the request relayed under `cseq` as cancelled.
pub fn cancel_pending_request(call: &mut Call, leg_id: &String, tag: &String, cseq: i64)
    ensures
        final(call)@ == old(call)@.cancel_pending_request(leg_id@, tag@, cseq),
{
    if let Some(d) = dialog_mut(call, leg_id, tag) {
        if let Some(i) = find_pending_index(&d.ext.inbound_pending_requests, cseq) {
            let ghost before = d.ext.inbound_pending_requests@;
            d.ext.inbound_pending_requests[i].cancelled = true;
            assert(views(d.ext.inbound_pending_requests@) =~= views(before).update(
                i as int,
                PendingRequestView { cancelled: true, ..before[i as int]@ },
            ));
        }
    }
}

/// Record the transaction of an INVITE just relayed on a dialog.
pub fn set_invite_txn(call: &mut Call, leg_id: &String, tag: &String, txn: InviteTxn)
    ensures
        final(call)@ == old(call)@.set_invite_txn(leg_id@, tag@, txn@),
{
    if let Some(d) = dialog_mut(call, leg_id, tag) {
        d.ext.pending_invite_txn = Some(txn);
        d.ext.ack_branch = None;
    }
}

/// Record the transaction of an INVITE of this stack's own just sent on a dialog.
pub fn set_own_invite_txn(call: &mut Call, leg_id: &String, tag: &String, txn: InviteTxn)
    ensures
        final(call)@ == old(call)@.set_own_invite_txn(leg_id@, tag@, txn@),
{
    if let Some(d) = dialog_mut(call, leg_id, tag) {
        d.ext.pending_invite_txn = Some(txn);
        d.ext.ack_branch = None;
        d.ext.emitted_ack = None;
        d.ext.awaited_ack_cseq = None;
    }
}

// ── laws ────────────────────────────────────────────────────────────────
/// A relayed request is remembered until it is forgotten: the dialog holds it
/// from the one call on, and no longer from the other.
pub proof fn a_pending_request_is_found_until_removed(
    c: CallView,
    leg_id: Seq<char>,
    tag: Seq<char>,
    p: PendingRequestView,
)
    requires
        c.dialog(leg_id, tag) is Some,
    ensures
        ({
            let c1 = c.add_pending_request(leg_id, tag, p);
            let c2 = c1.remove_pending_request(leg_id, tag, p.outbound_cseq);
            &&& c1.dialog(leg_id, tag) is Some
            &&& c1.dialog(leg_id, tag)->0.pending(p.outbound_cseq) is Some
            &&& c2.dialog(leg_id, tag) is Some
            &&& c2.dialog(leg_id, tag)->0.pending(p.outbound_cseq) is None
        }),
{
    let d = c.dialog(leg_id, tag)->0;
    let d1 = d.with_pending(p);
    dialog_of_with_dialog(c, leg_id, tag, d1);
    let c1 = c.add_pending_request(leg_id, tag, p);
    let found = pending_under(p.outbound_cseq);
    find_where_push(d.ext.inbound_pending_requests, p, found);
    let d2 = d1.without_pending(p.outbound_cseq);
    dialog_of_with_dialog(c1, leg_id, tag, d2);
    let left = d2.ext.inbound_pending_requests;
    keep_sound(d1.ext.inbound_pending_requests, not_pending_under(p.outbound_cseq));
    assert forall|i: int| 0 <= i < left.len() implies !found(#[trigger] left[i]) by {
        assert(not_pending_under(p.outbound_cseq)(left[i]));
    }
    first_where_none(left, found);
}

/// The dialog of that identity is the one just put there.
pub proof fn dialog_of_with_dialog(c: CallView, leg_id: Seq<char>, tag: Seq<char>, d: DialogView)
    requires
        c.dialog(leg_id, tag) is Some,
        identity_tag(leg_id, d) == tag,
    ensures
        c.with_dialog(leg_id, tag, d).dialog(leg_id, tag) == Some(d),
{
    let l = c.leg(leg_id)->0;
    let q = dialog_named(leg_id, tag);
    first_where_found(l.dialogs, q);
    let i = first_where(l.dialogs, q)->0;
    let l2 = LegView { dialogs: l.dialogs.update(i, d), ..l };
    if c.a_leg.leg_id != leg_id {
        first_where_found(c.b_legs, leg_named(leg_id));
    }
    leg_of_with_leg(c, leg_id, l2);
    assert(is_first(l2.dialogs, q, i)) by {
        assert forall|j: int| 0 <= j < i implies !q(#[trigger] l2.dialogs[j]) by {
            assert(!q(l.dialogs[j]));
        }
    }
    first_where_is(l2.dialogs, q, i);
}

} // verus!
