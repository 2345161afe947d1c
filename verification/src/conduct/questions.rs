//! What the decision on a transfer is shown of the REFER.
use vstd::prelude::*;

use crate::actions::stated::kept_exactly;
use crate::call::{DialogView, LegView};
use crate::headers::{name_among, named_outside};
use crate::model::RuleContextView;
use crate::refer_transfer::seed::{
    dialog_id, last_of_each, named_otherwise, shown_headers, withheld,
};
use crate::seqs::{keep, keep_push};
use crate::text::same_ignoring_case;
use crate::wire::{SipHeaderView, SipRequestView};

verus! {

/// A header that stays here: one of the stack's own, or one that the question states
/// by itself.
pub open spec fn stays_here(name: Seq<char>) -> bool {
    ||| same_ignoring_case(name, "From"@)
    ||| same_ignoring_case(name, "To"@)
    ||| same_ignoring_case(name, "Via"@)
    ||| same_ignoring_case(name, "Contact"@)
    ||| same_ignoring_case(name, "Content-Type"@)
    ||| same_ignoring_case(name, "Call-ID"@)
    ||| same_ignoring_case(name, "CSeq"@)
    ||| same_ignoring_case(name, "Max-Forwards"@)
    ||| same_ignoring_case(name, "Content-Length"@)
    ||| same_ignoring_case(name, "Refer-To"@)
    ||| same_ignoring_case(name, "Referred-By"@)
}

proof fn what_is_withheld(name: Seq<char>)
    ensures
        name_among(withheld(), name) == stays_here(name),
{
    let s = withheld();
    assert(s[0] == "From"@);
    assert(s[1] == "To"@);
    assert(s[2] == "Via"@);
    assert(s[3] == "Contact"@);
    assert(s[4] == "Content-Type"@);
    assert(s[5] == "Call-ID"@);
    assert(s[6] == "CSeq"@);
    assert(s[7] == "Max-Forwards"@);
    assert(s[8] == "Content-Length"@);
    assert(s[9] == "Refer-To"@);
    assert(s[10] == "Referred-By"@);
    if name_among(s, name) {
        let i = choose|i: int| 0 <= i < s.len() && same_ignoring_case(#[trigger] s[i], name);
        assert(same_ignoring_case(s[i], name));
    }
    if stays_here(name) {
        assert(exists|i: int| 0 <= i < s.len() && same_ignoring_case(#[trigger] s[i], name)) by {
            if same_ignoring_case(name, "From"@) {
                assert(same_ignoring_case(s[0], name));
            } else if same_ignoring_case(name, "To"@) {
                assert(same_ignoring_case(s[1], name));
            } else if same_ignoring_case(name, "Via"@) {
                assert(same_ignoring_case(s[2], name));
            } else if same_ignoring_case(name, "Contact"@) {
                assert(same_ignoring_case(s[3], name));
            } else if same_ignoring_case(name, "Content-Type"@) {
                assert(same_ignoring_case(s[4], name));
            } else if same_ignoring_case(name, "Call-ID"@) {
                assert(same_ignoring_case(s[5], name));
            } else if same_ignoring_case(name, "CSeq"@) {
                assert(same_ignoring_case(s[6], name));
            } else if same_ignoring_case(name, "Max-Forwards"@) {
                assert(same_ignoring_case(s[7], name));
            } else if same_ignoring_case(name, "Content-Length"@) {
                assert(same_ignoring_case(s[8], name));
            } else if same_ignoring_case(name, "Refer-To"@) {
                assert(same_ignoring_case(s[9], name));
            } else {
                assert(same_ignoring_case(s[10], name));
            }
        }
    }
}

proof fn the_last_of_each(hs: Seq<SipHeaderView>)
    ensures
        forall|h: SipHeaderView| #[trigger]
            last_of_each(hs).contains(h) <==> exists|i: int|
                {
                    &&& 0 <= i < hs.len()
                    &&& #[trigger] hs[i] == h
                    &&& forall|j: int| i < j < hs.len() ==> (#[trigger] hs[j]).name != h.name
                },
    decreases hs.len(),
{
    if hs.len() > 0 {
        let t = hs.drop_last();
        let n = hs.len() - 1;
        let x = hs.last();
        the_last_of_each(t);
        let kept = keep(last_of_each(t), named_otherwise(x.name));
        let all = last_of_each(hs);
        assert(all == kept.push(x));
        assert forall|h: SipHeaderView| #[trigger] all.contains(h) <==> exists|i: int|
            {
                &&& 0 <= i < hs.len()
                &&& #[trigger] hs[i] == h
                &&& forall|j: int| i < j < hs.len() ==> (#[trigger] hs[j]).name != h.name
            } by {
            kept_exactly(last_of_each(t), named_otherwise(x.name), h);
            if all.contains(h) {
                let k = choose|k: int| 0 <= k < all.len() && all[k] == h;
                if k < kept.len() {
                    assert(kept[k] == h);
                    assert(last_of_each(t).contains(h));
                    let i = choose|i: int|
                        {
                            &&& 0 <= i < t.len()
                            &&& #[trigger] t[i] == h
                            &&& forall|j: int| i < j < t.len() ==> (#[trigger] t[j]).name != h.name
                        };
                    assert(hs[i] == h);
                    assert forall|j: int| i < j < hs.len() implies (#[trigger] hs[j]).name
                        != h.name by {
                        if j < n {
                            assert(t[j] == hs[j]);
                        }
                    }
                } else {
                    assert(hs[n] == h);
                }
            }
            if exists|i: int|
                {
                    &&& 0 <= i < hs.len()
                    &&& #[trigger] hs[i] == h
                    &&& forall|j: int| i < j < hs.len() ==> (#[trigger] hs[j]).name != h.name
                } {
                let i = choose|i: int|
                    {
                        &&& 0 <= i < hs.len()
                        &&& #[trigger] hs[i] == h
                        &&& forall|j: int| i < j < hs.len() ==> (#[trigger] hs[j]).name != h.name
                    };
                if i < n {
                    assert(t[i] == h);
                    assert forall|j: int| i < j < t.len() implies (#[trigger] t[j]).name
                        != h.name by {
                        assert(hs[j] == t[j]);
                    }
                    assert(last_of_each(t).contains(h));
                    assert(hs[n].name != h.name);
                    assert(kept.contains(h));
                    let k = choose|k: int| 0 <= k < kept.len() && kept[k] == h;
                    assert(all[k] == h);
                } else {
                    assert(all[kept.len() as int] == h);
                }
            }
        }
    }
}

/// The decision on a transfer is shown what the REFER says beyond what is asked by
/// itself: of each header the last line, and none of the stack's own.
pub proof fn a_question_shows_the_headers(req: SipRequestView, h: SipHeaderView)
    ensures
        shown_headers(req).contains(h) ==> req.headers.contains(h) && !stays_here(h.name),
        req.headers.contains(h) && !stays_here(h.name) ==> exists|g: SipHeaderView| #[trigger]
            shown_headers(req).contains(g) && g.name == h.name,
        req.headers.len() > 0 && h == req.headers.last() && !stays_here(h.name) ==> shown_headers(
            req,
        ).contains(h),
        forall|g: SipHeaderView| #[trigger]
            shown_headers(req).contains(g) && shown_headers(req).contains(h) && g.name == h.name
                ==> g == h,
{
    let p = named_outside(withheld());
    let hs = keep(req.headers, p);
    kept_exactly(req.headers, p, h);
    what_is_withheld(h.name);
    the_last_of_each(hs);
    if req.headers.contains(h) && !stays_here(h.name) {
        assert(hs.contains(h));
        let i = choose|i: int| 0 <= i < hs.len() && hs[i] == h;
        a_last_one_stands(hs, h.name, i);
        let g = choose|g: SipHeaderView| #[trigger]
            last_of_each(hs).contains(g) && g.name == h.name;
        assert(shown_headers(req).contains(g));
    }
    if req.headers.len() > 0 && h == req.headers.last() && !stays_here(h.name) {
        keep_push(req.headers.drop_last(), h, p);
        assert(req.headers.drop_last().push(h) =~= req.headers);
        assert(hs.last() == h);
        assert(hs[hs.len() - 1] == h);
    }
    assert forall|g: SipHeaderView| #[trigger]
        shown_headers(req).contains(g) && shown_headers(req).contains(h) && g.name
            == h.name implies g == h by {
        let i = choose|i: int|
            {
                &&& 0 <= i < hs.len()
                &&& #[trigger] hs[i] == g
                &&& forall|j: int| i < j < hs.len() ==> (#[trigger] hs[j]).name != g.name
            };
        let k = choose|k: int|
            {
                &&& 0 <= k < hs.len()
                &&& #[trigger] hs[k] == h
                &&& forall|j: int| k < j < hs.len() ==> (#[trigger] hs[j]).name != h.name
            };
        if i < k {
            assert(hs[k].name != g.name);
        } else if k < i {
            assert(hs[i].name != h.name);
        }
    }
}

proof fn a_last_one_stands(hs: Seq<SipHeaderView>, name: Seq<char>, i: int)
    requires
        0 <= i < hs.len(),
        hs[i].name == name,
        forall|h: SipHeaderView| #[trigger]
            last_of_each(hs).contains(h) <==> exists|i: int|
                {
                    &&& 0 <= i < hs.len()
                    &&& #[trigger] hs[i] == h
                    &&& forall|j: int| i < j < hs.len() ==> (#[trigger] hs[j]).name != h.name
                },
    ensures
        exists|g: SipHeaderView| #[trigger] last_of_each(hs).contains(g) && g.name == name,
    decreases hs.len() - i,
{
    if exists|j: int| i < j < hs.len() && (#[trigger] hs[j]).name == name {
        let j = choose|j: int| i < j < hs.len() && (#[trigger] hs[j]).name == name;
        a_last_one_stands(hs, name, j);
    } else {
        assert(last_of_each(hs).contains(hs[i]));
    }
}

/// The dialog a question names is the referrer's own: its call, the tag it goes by and
/// the tag this stack goes by.
pub proof fn a_question_names_the_referrers_dialog(
    ctx: RuleContextView,
    leg: LegView,
    d: DialogView,
)
    requires
        ctx.call.leg(ctx.source_leg_id) == Some(leg),
        leg.dialogs.len() > 0,
        leg.dialogs[0] == d,
    ensures
        dialog_id(ctx) == leg.call_id + ";to-tag="@ + d.sip.remote_tag + ";from-tag="@
            + leg.from_tag,
{
}

} // verus!
